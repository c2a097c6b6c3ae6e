//! The closed set of status effects an actor can be under.

use vstd::prelude::*;

verus! {

/// A status effect. An actor records, per kind, how long it still lasts.
///
/// The first six variants take control away from the actor, `Burn` and
/// `Freeze` deal damage over time, the next five help the actor, and
/// `Ethereal` is neutral.
#[derive(Debug, Clone, Copy, PartialEq, Eq, Hash, Structural)]
pub enum StatusType {
    /// Unable to act; falls to the ground.
    Stun,
    /// Like `Stun`, but the actor can be woken up.
    Sleep,
    /// Forced to attack the taunter.
    Taunt,
    /// Unable to move the lower body, still able to act.
    Rooted,
    /// Forced to attack allies.
    Charm,
    /// Forced to flee.
    Terror,
    /// Takes heat damage over time.
    Burn,
    /// Takes cold damage over time.
    Freeze,
    Invisible,
    /// Immune to control statuses.
    Unstoppable,
    /// Immune to damage and to control.
    Invincible,
    /// Cannot die, but can be damaged or controlled.
    Immortal,
    UnderwaterBreathing,
    /// Cannot act and cannot be acted upon.
    Ethereal,
}

} // verus!
