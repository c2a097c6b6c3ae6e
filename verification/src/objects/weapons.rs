//! Weapons: what they share, and the melee and ranged kinds.

pub mod common;
pub mod melee;
pub mod ranged;
