//! The descriptive payload shared by every item.

use vstd::prelude::*;

verus! {

/// What every item is: an identity, a label, and how heavy and bulky it is.
#[derive(Debug, Clone, PartialEq, Eq)]
pub struct Object {
    pub id: u32,
    pub name: String,
    pub description: String,
    pub weight: u32,
    pub volume: u32,
}

impl Object {
    pub fn new(
        id: u32,
        name: String,
        description: String,
        weight: u32,
        volume: u32,
    ) -> (object: Object)
        ensures
            object == (Object { id, name, description, weight, volume }),
    {
        Object { id, name, description, weight, volume }
    }
}

} // verus!
