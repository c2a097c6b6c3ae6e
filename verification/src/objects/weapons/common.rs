//! What every weapon is and does: it has a damage profile, and it can be
//! raised in defense.

use vstd::prelude::*;
use crate::common::damage::{Damage, PhysicalDamageType};
use crate::common::arithmetic::{lemma_product_by_one, lemma_product_by_zero};
use crate::common::float::{Float32, ONE_BITS};
use crate::objects::consumable::Consumable;
use crate::objects::object::Object;

verus! {

/// The slot for what has been applied to a weapon or a projectile: one
/// consumable at most.
pub type Applied = Option<Consumable>;

/// Something that can be raised against a hit.
pub trait Defend {
    /// What is left of a hit once the defender has met it: a hit of the same
    /// kind.
    fn defend(&self, damage: Damage) -> (mitigated: Damage)
        ensures
            mitigated.damage_type == damage.damage_type,
    ;
}

/// Something that a consumable can be applied to.
pub trait Poisonable {
    /// What is applied to the object at present.
    spec fn applied(&self) -> Applied;

    /// Binds `applicable` to the object, in place of whatever was bound
    /// before.
    fn apply_potion_on_object(&mut self, applicable: Consumable)
        ensures
            final(self).applied() == Some(applicable),
    ;
}

/// What the melee and the ranged weapons share.
pub struct Weapon {
    pub object: Object,
    /// Read by whoever schedules attacks; nothing here consumes it.
    pub attack_speed: u32,
    /// The factor by which the weapon scales a hit that it is raised
    /// against: between zero and one by convention, where it mitigates.
    pub defense_multiplier: Float32,
    pub damage_type: PhysicalDamageType,
}

impl Weapon {
    pub fn new(
        object: Object,
        attack_speed: u32,
        defense_multiplier: Float32,
        damage_type: PhysicalDamageType,
    ) -> (weapon: Weapon)
        ensures
            weapon == (Weapon { object, attack_speed, defense_multiplier, damage_type }),
    {
        Weapon { object, attack_speed, defense_multiplier, damage_type }
    }

    /// A hit, scaled by the weapon's defense multiplier: the kind stays, the
    /// amount is the rounded product.
    pub open spec fn mitigated(&self, damage: Damage) -> Damage {
        Damage {
            damage_type: damage.damage_type,
            amount: damage.amount.product(self.defense_multiplier),
        }
    }
}

impl Defend for Weapon {
    /// Scales the amount of the hit by the defense multiplier and leaves its
    /// kind alone. A multiplier above one amplifies.
    fn defend(&self, damage: Damage) -> (mitigated: Damage)
        ensures
            mitigated == self.mitigated(damage),
    {
        Damage { damage_type: damage.damage_type, amount: damage.amount * self.defense_multiplier }
    }
}

/// A weapon with a defense multiplier of one lets every hit through as it
/// came, unless the amount is a NaN.
pub proof fn lemma_defend_with_one(weapon: Weapon, damage: Damage)
    requires
        weapon.defense_multiplier.bits == ONE_BITS,
        !damage.amount.is_nan(),
    ensures
        weapon.mitigated(damage) == damage,
{
    lemma_product_by_one(damage.amount, weapon.defense_multiplier);
}

/// A weapon with a defense multiplier of zero lets nothing of a finite hit
/// through: the amount that is left is a zero.
pub proof fn lemma_defend_with_zero(weapon: Weapon, damage: Damage)
    requires
        weapon.defense_multiplier.is_zero(),
        damage.amount.is_finite(),
    ensures
        weapon.mitigated(damage).amount.is_zero(),
        weapon.mitigated(damage).damage_type == damage.damage_type,
{
    lemma_product_by_zero(damage.amount, weapon.defense_multiplier);
}

} // verus!
