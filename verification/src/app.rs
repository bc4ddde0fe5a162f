//! The application: the top-level driver over one world and one scheduler.
//!
//! A run is: every startup routine once, then repeatedly one step — all
//! step routines in order, then a drain of the command queue — until a
//! routine or an enqueued stop command signals stop. The blocking loop
//! itself belongs to the caller: it repeats [`App::step`] for as long as
//! that returns [`StepOutcome::Continue`].

use vstd::prelude::*;
use crate::commands::{drain_model, Command};
use crate::components::{Component, TypeKey};
use crate::resources::Resource;
use crate::scheduler::Scheduler;
use crate::systems::{StartUpSystem, System};
use crate::world::{World, WorldModel};

verus! {

/// What one main-loop step decided.
#[derive(Clone, Copy, Debug, PartialEq, Eq, Structural)]
pub enum StepOutcome {
    /// Every routine asked to continue and the drain ran in full.
    Continue,
    /// A routine or an enqueued stop command ended the run.
    Stopped,
    /// The drain hit a fatal command: an unallocated slot, an invalid
    /// entity, or a duplicate resource type. The run is over; the caller
    /// reports the programmer error.
    CommandFault,
}

/// The top-level driver: owns the world and the scheduler, and threads the
/// running flag.
pub struct App<C, R, SU, S> {
    world: World<C, R>,
    scheduler: Scheduler<SU, S>,
    run: bool,
}

impl<C, R, SU, S> App<C, R, SU, S> {
    /// The registry invariant of the owned world.
    pub closed spec fn wf(&self) -> bool {
        self.world.wf()
    }

    /// The owned world's mathematical state.
    pub closed spec fn world_model(&self) -> WorldModel<C, R> {
        self.world@
    }

    /// Whether the main loop should keep going.
    pub closed spec fn running_spec(&self) -> bool {
        self.run
    }

    /// The registered startup routines, in registration order.
    pub closed spec fn startup_systems_spec(&self) -> Seq<SU> {
        self.scheduler.startup_systems_spec()
    }

    /// The registered step routines, in registration order.
    pub closed spec fn systems_spec(&self) -> Seq<S> {
        self.scheduler.systems_spec()
    }

    /// An application over an empty world, with no routines, ready to run.
    pub fn new() -> (app: Self)
        ensures
            app.wf(),
            app.running_spec(),
            app.world_model() == (WorldModel {
                entities: Seq::<Option<Map<TypeKey, C>>>::empty(),
                resources: Map::<TypeKey, R>::empty(),
                queue: Seq::<Command<C, R>>::empty(),
                stopped: false,
            }),
            app.startup_systems_spec() == Seq::<SU>::empty(),
            app.systems_spec() == Seq::<S>::empty(),
    {
        App { world: World::new(), scheduler: Scheduler::new(), run: true }
    }

    /// Registers a startup routine; it will run once, after every startup
    /// routine registered before it.
    pub fn add_startup_system(&mut self, system: SU)
        ensures
            final(self).startup_systems_spec() == old(self).startup_systems_spec().push(system),
            final(self).systems_spec() == old(self).systems_spec(),
            final(self).world_model() == old(self).world_model(),
            final(self).running_spec() == old(self).running_spec(),
            final(self).wf() == old(self).wf(),
    {
        self.scheduler.add_startup_system(system);
    }

    /// Registers a step routine; it will run every step, after every step
    /// routine registered before it.
    pub fn add_system(&mut self, system: S)
        ensures
            final(self).systems_spec() == old(self).systems_spec().push(system),
            final(self).startup_systems_spec() == old(self).startup_systems_spec(),
            final(self).world_model() == old(self).world_model(),
            final(self).running_spec() == old(self).running_spec(),
            final(self).wf() == old(self).wf(),
    {
        self.scheduler.add_system(system);
    }

    /// Runs the startup phase once: every startup routine in registration
    /// order, short-circuited by the first `false`, which ends the whole
    /// run before the main loop starts.
    pub fn startup(&mut self) -> (keep_running: bool)
        where SU: StartUpSystem<C, R>
        requires
            old(self).wf(),
        ensures
            final(self).wf(),
            keep_running == final(self).running_spec(),
            old(self).startup_systems_spec().len() == 0 ==> keep_running
                && final(self).world_model() == old(self).world_model(),
    {
        let keep_running = self.scheduler.run_startup_systems(&mut self.world);
        self.run = keep_running;
        keep_running
    }

    /// One main-loop step: every step routine in registration order
    /// (short-circuited by the first `false`), then a full drain of the
    /// command queue — the drain happens even when a routine asked to
    /// stop. The caller loops while this returns
    /// [`StepOutcome::Continue`].
    pub fn step(&mut self) -> (outcome: StepOutcome)
        where C: Component, R: Resource, S: System<C, R>
        requires
            old(self).wf(),
        ensures
            final(self).wf(),
            (outcome == StepOutcome::Continue) == final(self).running_spec(),
            !old(self).running_spec() ==> outcome == StepOutcome::Stopped && *final(self) == *old(
                self,
            ),
            old(self).running_spec() && old(self).systems_spec().len() == 0
                ==> final(self).world_model() == drain_model(old(self).world_model()).0 && ((
            outcome == StepOutcome::CommandFault) == !drain_model(old(self).world_model()).1),
    {
        if !self.run {
            return StepOutcome::Stopped;
        }
        let keep_running = self.scheduler.run_systems(&mut self.world);
        let drained = self.world.try_run_commands();
        if !drained {
            self.run = false;
            return StepOutcome::CommandFault;
        }
        if keep_running && !self.world.is_stopped() {
            StepOutcome::Continue
        } else {
            self.run = false;
            StepOutcome::Stopped
        }
    }

    /// Whether the main loop should keep going.
    pub fn running(&self) -> (b: bool)
        ensures
            b == self.running_spec(),
    {
        self.run
    }

    /// Borrows the owned world, for inspection between steps.
    pub fn world(&self) -> (w: &World<C, R>)
        ensures
            w@ == self.world_model(),
            w.wf() == self.wf(),
    {
        &self.world
    }

    /// Mutably borrows the owned world, for setup before the run.
    pub fn world_mut(&mut self) -> (w: &mut World<C, R>)
        requires
            old(self).wf(),
        ensures
            (*w)@ == old(self).world_model(),
            (*w).wf(),
            final(self).world_model() == (*final(w))@,
            final(self).wf() == final(w).wf(),
            final(self).running_spec() == old(self).running_spec(),
            final(self).startup_systems_spec() == old(self).startup_systems_spec(),
            final(self).systems_spec() == old(self).systems_spec(),
    {
        &mut self.world
    }
}

} // verus!
