//! Objects whose effects can be bound to a weapon or to an actor.

use vstd::prelude::*;
use crate::common::stats::Stats;
use crate::common::status::StatusType;
use crate::objects::object::Object;

verus! {

/// Marks what can be applied to something [`Poisonable`].
///
/// [`Poisonable`]: crate::objects::weapons::common::Poisonable
pub trait Applicable {}

/// An object that is used up when applied. It gives statuses and statistics,
/// each for its own length of time.
pub struct Consumable {
    pub object: Object,
    /// The statuses and the statistics it gives, each with its duration.
    pub effects: (Vec<(StatusType, u32)>, Vec<(Stats, u32)>),
}

impl Consumable {
    pub fn new(
        object: Object,
        effects: (Vec<(StatusType, u32)>, Vec<(Stats, u32)>),
    ) -> (consumable: Consumable)
        ensures
            consumable == (Consumable { object, effects }),
    {
        Consumable { object, effects }
    }
}

impl Applicable for Consumable {}

} // verus!
