//! Typed damage and the outcome of applying it to a target.

use vstd::prelude::*;
use crate::common::float::Float32;

verus! {

/// What kind of harm a hit does.
#[derive(Debug, Copy, Clone, PartialEq, Eq, Hash, Structural)]
pub enum DamageType {
    Physical(PhysicalDamageType),
    Elemental(ElementalDamageType),
    Poison(PoisonDamageType),
}

#[derive(Debug, Copy, Clone, PartialEq, Eq, Hash, Structural)]
pub enum PhysicalDamageType {
    Pierce,
    Impact,
    Slash,
}

#[derive(Debug, Copy, Clone, PartialEq, Eq, Hash, Structural)]
pub enum ElementalDamageType {
    Cold,
    Heat,
}

#[derive(Debug, Copy, Clone, PartialEq, Eq, Hash, Structural)]
pub enum PoisonDamageType {
    Acid,
}

/// One hit: how much, and of what kind. Passed by value from the weapon,
/// through the defender's mitigation, to the body part that takes it.
#[derive(Copy, Clone, Debug)]
pub struct Damage {
    pub damage_type: DamageType,
    pub amount: Float32,
}

/// What a hit did to its target. A value for the caller to act on: it changes
/// nothing by itself.
#[derive(PartialEq, Debug, Clone, Copy)]
pub enum DamageResult {
    /// The armor absorbed the hit.
    NoDamage,
    /// The target took this much.
    Damage(Float32),
    /// The target, which its owner can live without, is lost.
    Destroyed,
    /// The target was vital: its owner dies.
    Killed,
}

/// Something that can be hit.
pub trait Damageable {
    /// Whether every hit goes through this target whole and leaves it as it
    /// was. That is so unless an implementor resolves hits in a way of its
    /// own, and says so here.
    open spec fn takes_hits_whole(&self) -> bool {
        true
    }

    /// Resolves one hit. Unless an implementor says otherwise, the whole
    /// amount goes through and the target stays as it was.
    fn damage(&mut self, damage: Damage) -> (result: DamageResult)
        ensures
            old(self).takes_hits_whole() ==> result == DamageResult::Damage(damage.amount),
            old(self).takes_hits_whole() ==> &*final(self) == &*old(self),
    {
        DamageResult::Damage(damage.amount)
    }
}

} // verus!
