//! The contracts between the scheduler and user-supplied routines.
//!
//! A system borrows the world through its accessors, never owning storage
//! across a step boundary, and signals with its result whether the run
//! should continue (`true`) or stop (`false`).

use vstd::prelude::*;
use crate::world::World;

verus! {

/// A routine run once before the main loop, in registration order.
///
/// Implementors must preserve the world's registry invariant, which every
/// accessor of [`World`] does.
pub trait StartUpSystem<C, R> {
    /// Runs the routine; `false` short-circuits the remaining startup
    /// routines and the whole run.
    fn run(&mut self, world: &mut World<C, R>) -> (keep_running: bool)
        requires
            old(world).wf(),
        ensures
            final(world).wf(),
    ;
}

/// A routine run on every step of the main loop, in registration order.
///
/// Implementors must preserve the world's registry invariant, which every
/// accessor of [`World`] does.
pub trait System<C, R> {
    /// Runs the routine; `false` short-circuits the remaining routines of
    /// this pass and ends the loop.
    fn run(&mut self, world: &mut World<C, R>) -> (keep_running: bool)
        requires
            old(world).wf(),
        ensures
            final(world).wf(),
    ;
}

} // verus!
