//! Actors and their bodies.

pub mod actor;
pub mod npc;
