//! The scheduler: ordered lists of startup and step routines.
//!
//! Registration order is execution order; there is no dependency graph or
//! priority. Heterogeneous routines register behind one startup type and
//! one step type (usually enums over the concrete routines).

use vstd::prelude::*;
use crate::systems::{StartUpSystem, System};
use crate::world::World;

verus! {

/// The ordered startup routines and the ordered step routines.
pub struct Scheduler<SU, S> {
    startup_systems: Vec<SU>,
    systems: Vec<S>,
}

impl<SU, S> Scheduler<SU, S> {
    /// The registered startup routines, in registration order.
    pub closed spec fn startup_systems_spec(&self) -> Seq<SU> {
        self.startup_systems@
    }

    /// The registered step routines, in registration order.
    pub closed spec fn systems_spec(&self) -> Seq<S> {
        self.systems@
    }

    /// A scheduler with no routines.
    pub fn new() -> (s: Self)
        ensures
            s.startup_systems_spec() == Seq::<SU>::empty(),
            s.systems_spec() == Seq::<S>::empty(),
    {
        Scheduler { startup_systems: Vec::new(), systems: Vec::new() }
    }

    /// Registers a startup routine; it will run after every routine
    /// registered before it.
    pub fn add_startup_system(&mut self, system: SU)
        ensures
            final(self).startup_systems_spec() == old(self).startup_systems_spec().push(system),
            final(self).systems_spec() == old(self).systems_spec(),
    {
        self.startup_systems.push(system);
    }

    /// Registers a step routine; it will run after every routine
    /// registered before it.
    pub fn add_system(&mut self, system: S)
        ensures
            final(self).systems_spec() == old(self).systems_spec().push(system),
            final(self).startup_systems_spec() == old(self).startup_systems_spec(),
    {
        self.systems.push(system);
    }

    /// Runs every startup routine once, in registration order; a routine
    /// returning `false` short-circuits the rest and the whole run.
    pub fn run_startup_systems<C, R>(&mut self, world: &mut World<C, R>) -> (keep_running: bool)
        where SU: StartUpSystem<C, R>
        requires
            old(world).wf(),
        ensures
            final(world).wf(),
            final(self).startup_systems_spec().len() == old(self).startup_systems_spec().len(),
            final(self).systems_spec() == old(self).systems_spec(),
            old(self).startup_systems_spec().len() == 0 ==> keep_running && final(world)@ == old(
                world,
            )@,
    {
        let n = self.startup_systems.len();
        let mut i: usize = 0;
        while i < n
            invariant
                world.wf(),
                n == self.startup_systems@.len(),
                self.startup_systems@.len() == old(self).startup_systems@.len(),
                self.systems@ == old(self).systems@,
                i <= n,
                n == 0 ==> world@ == old(world)@,
            decreases n - i,
        {
            if !self.startup_systems[i].run(world) {
                return false;
            }
            i += 1;
        }
        true
    }

    /// Runs every step routine once, in registration order; a routine
    /// returning `false` short-circuits the rest of this pass and ends the
    /// loop.
    pub fn run_systems<C, R>(&mut self, world: &mut World<C, R>) -> (keep_running: bool)
        where S: System<C, R>
        requires
            old(world).wf(),
        ensures
            final(world).wf(),
            final(self).systems_spec().len() == old(self).systems_spec().len(),
            final(self).startup_systems_spec() == old(self).startup_systems_spec(),
            old(self).systems_spec().len() == 0 ==> keep_running && final(world)@ == old(world)@,
    {
        let n = self.systems.len();
        let mut i: usize = 0;
        while i < n
            invariant
                world.wf(),
                n == self.systems@.len(),
                self.systems@.len() == old(self).systems@.len(),
                self.startup_systems@ == old(self).startup_systems@,
                i <= n,
                n == 0 ==> world@ == old(world)@,
            decreases n - i,
        {
            if !self.systems[i].run(world) {
                return false;
            }
            i += 1;
        }
        true
    }
}

} // verus!
