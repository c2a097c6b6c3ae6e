//! What an actor wears.

use std::collections::HashMap;
use vstd::prelude::*;
use crate::common::damage::DamageType;
use crate::objects::object::Object;

verus! {

/// A piece of armor: per kind of damage the threshold below which a hit does
/// nothing, and one threshold above which the piece gives way.
pub struct ArmorPiece {
    pub object: Object,
    pub armor_low: HashMap<DamageType, u32>,
    pub armor_high: u32,
}

} // verus!
