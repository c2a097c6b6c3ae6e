//! Characters that the world plays.

use vstd::prelude::*;
use crate::actors::actor::Actor;

verus! {

/// What a character does for a living.
#[derive(Debug, Clone, Copy, PartialEq, Eq, Structural)]
pub enum Role {
    Bandit,
    Guard,
    Shopkeeper,
    Farmer,
    Blacksmith,
    Noble,
    Mage,
}

/// An actor with a role.
pub struct NPC {
    pub actor: Actor,
    pub role: Role,
}

} // verus!
