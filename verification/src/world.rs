//! The world an actor moves in.

pub mod map;
pub mod world_elements;
