//! Weapons that shoot, and what they shoot.

use vstd::prelude::*;
use vstd::arithmetic::power2::pow2;
use crate::common::arithmetic::{lemma_of_nat_exact, lemma_product_exact};
use crate::common::damage::{Damage, DamageType};
use crate::common::float::{Float32, HIDDEN_BIT, UNIT_SCALE, magnitude_units};
use crate::objects::object::Object;
use crate::objects::weapons::common::{Applied, Weapon};

verus! {

/// What a ranged weapon shoots. It can carry one applied consumable.
pub struct Projectile {
    pub object: Object,
    pub applicable: Applied,
    pub base_damage: u32,
}

/// Something that can shoot.
pub trait RangedAttack {
    /// The hit of `projectile`, shot by this.
    fn shoot(&self, projectile: Projectile) -> (damage: Damage);
}

/// A weapon that shoots, and that can strike at arm's length where it must.
pub struct RangedWeapon {
    pub weapon: Weapon,
    pub base_attack_damage_multiplier: Float32,
    /// Read by whoever schedules attacks; nothing here consumes it.
    pub normal_attack_speed: u32,
    pub melee_attack_damage: u32,
    /// Read by whoever schedules attacks; nothing here consumes it.
    pub melee_attack_speed: u32,
}

impl RangedWeapon {
    pub fn new(
        weapon: Weapon,
        base_attack_damage_multiplier: Float32,
        normal_attack_speed: u32,
        melee_attack_damage: u32,
        melee_attack_speed: u32,
    ) -> (ranged: RangedWeapon)
        ensures
            ranged == (RangedWeapon {
                weapon,
                base_attack_damage_multiplier,
                normal_attack_speed,
                melee_attack_damage,
                melee_attack_speed,
            }),
    {
        RangedWeapon {
            weapon,
            base_attack_damage_multiplier,
            normal_attack_speed,
            melee_attack_damage,
            melee_attack_speed,
        }
    }

    /// The hit of a projectile of the given base damage: that damage times
    /// the weapon's multiplier, of the weapon's kind.
    pub open spec fn shot(&self, base_damage: u32) -> Damage {
        Damage {
            damage_type: DamageType::Physical(self.weapon.damage_type),
            amount: Float32::of_nat(base_damage as nat).product(
                self.base_attack_damage_multiplier,
            ),
        }
    }
}

impl Projectile {
    /// A projectile with nothing applied to it.
    pub fn new(object: Object, base_damage: u32) -> (projectile: Projectile)
        ensures
            projectile == (Projectile { object, applicable: None, base_damage }),
    {
        Projectile { object, applicable: None, base_damage }
    }
}

impl RangedAttack for RangedWeapon {
    /// The kind of the hit is the weapon's, whatever the projectile is or
    /// carries: of the projectile only the base damage counts.
    fn shoot(&self, projectile: Projectile) -> (damage: Damage)
        ensures
            damage == self.shot(projectile.base_damage),
            damage.damage_type == DamageType::Physical(self.weapon.damage_type),
    {
        Damage {
            damage_type: DamageType::Physical(self.weapon.damage_type),
            amount: Float32::from_u32(projectile.base_damage) * self.base_attack_damage_multiplier,
        }
    }
}

/// A shot hits with the projectile's base damage times the weapon's
/// multiplier, exactly, wherever that product is a binary32 number: if
/// `exact` is that number, it is the amount. The kind of the hit is the
/// weapon's.
pub proof fn lemma_shot_amount(ranged: RangedWeapon, base_damage: u32, exact: Float32)
    requires
        base_damage < 2 * HIDDEN_BIT,
        ranged.base_attack_damage_multiplier.is_finite(),
        exact.is_finite(),
        magnitude_units(exact.magnitude()) == base_damage * magnitude_units(
            ranged.base_attack_damage_multiplier.magnitude(),
        ),
    ensures
        ranged.shot(base_damage).amount.magnitude() == exact.magnitude(),
        ranged.shot(base_damage).amount.is_negative()
            == ranged.base_attack_damage_multiplier.is_negative(),
        ranged.shot(base_damage).damage_type == DamageType::Physical(ranged.weapon.damage_type),
{
    let base = Float32::of_nat(base_damage as nat);
    let factor = magnitude_units(ranged.base_attack_damage_multiplier.magnitude());
    let step = pow2(UNIT_SCALE as nat);
    lemma_of_nat_exact(base_damage as nat);
    assert((base_damage * factor) * step == (base_damage * step) * factor) by (nonlinear_arith);
    lemma_product_exact(base, ranged.base_attack_damage_multiplier, exact);
}

} // verus!
