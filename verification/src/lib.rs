//! A minimal entity-component-system runtime.
//!
//! The world stores heterogeneous per-entity components and process-wide
//! singleton resources behind runtime type keys, offers all-or-nothing
//! queries over sets of component types, defers structural mutation through
//! an ordered command queue, and drives registered systems with a
//! startup/step scheduler.

pub mod app;
pub mod commands;
pub mod components;
pub mod entities;
pub mod resources;
pub mod scheduler;
pub mod systems;
pub mod world;
