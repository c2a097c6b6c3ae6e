//! Weapons for close combat.

use vstd::prelude::*;
use vstd::arithmetic::power2::pow2;
use crate::common::arithmetic::{lemma_of_nat_exact, lemma_product_exact};
use crate::common::damage::{Damage, DamageType};
use crate::common::float::{Float32, HIDDEN_BIT, UNIT_SCALE, magnitude_units};
use crate::objects::consumable::Consumable;
use crate::objects::weapons::common::{Applied, Poisonable, Weapon};

verus! {

/// Something that can strike at arm's length.
pub trait MeleeAttack {
    /// The hit of an ordinary strike.
    fn normal_attack(&self) -> (damage: Damage);

    /// The hit of a strike that was wound up.
    fn charged_attack(&self) -> (damage: Damage);
}

/// A weapon for close combat. It can carry one applied consumable.
pub struct MeleeWeapon {
    pub weapon: Weapon,
    pub applicable: Applied,
    pub base_attack_damage: u32,
    /// Read by whoever schedules attacks; nothing here consumes it.
    pub normal_attack_speed: u32,
    pub charged_attack_damage_multiplier: Float32,
    /// Read by whoever schedules attacks; nothing here consumes it.
    pub charged_attack_speed_multiplier: u32,
}

impl MeleeWeapon {
    /// A melee weapon with nothing applied to it.
    pub fn new(
        weapon: Weapon,
        base_attack_damage: u32,
        normal_attack_speed: u32,
        charged_attack_damage_multiplier: Float32,
        charged_attack_speed_multiplier: u32,
    ) -> (melee: MeleeWeapon)
        ensures
            melee == (MeleeWeapon {
                weapon,
                applicable: None,
                base_attack_damage,
                normal_attack_speed,
                charged_attack_damage_multiplier,
                charged_attack_speed_multiplier,
            }),
    {
        MeleeWeapon {
            weapon,
            applicable: None,
            base_attack_damage,
            normal_attack_speed,
            charged_attack_damage_multiplier,
            charged_attack_speed_multiplier,
        }
    }

    /// The hit of an ordinary strike: the base damage, of the weapon's kind.
    pub open spec fn normal_hit(&self) -> Damage {
        Damage {
            damage_type: DamageType::Physical(self.weapon.damage_type),
            amount: Float32::of_nat(self.base_attack_damage as nat),
        }
    }

    /// The hit of a charged strike: the base damage times the charge
    /// multiplier, of the weapon's kind.
    pub open spec fn charged_hit(&self) -> Damage {
        Damage {
            damage_type: DamageType::Physical(self.weapon.damage_type),
            amount: Float32::of_nat(self.base_attack_damage as nat).product(
                self.charged_attack_damage_multiplier,
            ),
        }
    }

    /// Binds `applicable` to the weapon, in place of whatever was bound
    /// before.
    pub fn apply_potion(&mut self, applicable: Consumable)
        ensures
            final(self).applicable == Some(applicable),
            final(self).weapon == old(self).weapon,
            final(self).base_attack_damage == old(self).base_attack_damage,
            final(self).normal_attack_speed == old(self).normal_attack_speed,
            final(self).charged_attack_damage_multiplier == old(
                self,
            ).charged_attack_damage_multiplier,
            final(self).charged_attack_speed_multiplier == old(
                self,
            ).charged_attack_speed_multiplier,
    {
        self.applicable = Some(applicable);
    }
}

impl MeleeAttack for MeleeWeapon {
    fn normal_attack(&self) -> (damage: Damage)
        ensures
            damage == self.normal_hit(),
    {
        Damage {
            damage_type: DamageType::Physical(self.weapon.damage_type),
            amount: Float32::from_u32(self.base_attack_damage),
        }
    }

    fn charged_attack(&self) -> (damage: Damage)
        ensures
            damage == self.charged_hit(),
    {
        Damage {
            damage_type: DamageType::Physical(self.weapon.damage_type),
            amount: Float32::from_u32(self.base_attack_damage)
                * self.charged_attack_damage_multiplier,
        }
    }
}

impl Poisonable for MeleeWeapon {
    open spec fn applied(&self) -> Applied {
        self.applicable
    }

    fn apply_potion_on_object(&mut self, applicable: Consumable)
        ensures
            final(self).applicable == Some(applicable),
            final(self).weapon == old(self).weapon,
            final(self).base_attack_damage == old(self).base_attack_damage,
            final(self).normal_attack_speed == old(self).normal_attack_speed,
            final(self).charged_attack_damage_multiplier == old(
                self,
            ).charged_attack_damage_multiplier,
            final(self).charged_attack_speed_multiplier == old(
                self,
            ).charged_attack_speed_multiplier,
    {
        self.apply_potion(applicable);
    }
}

/// An ordinary strike hits with the base damage itself, as long as that has
/// at most twenty-four binary digits (a larger one is rounded to as many).
pub proof fn lemma_normal_hit_amount(melee: MeleeWeapon)
    requires
        melee.base_attack_damage < 2 * HIDDEN_BIT,
    ensures
        melee.normal_hit().amount.is_finite(),
        !melee.normal_hit().amount.is_negative(),
        melee.normal_hit().amount.units() == melee.base_attack_damage * pow2(UNIT_SCALE as nat),
        melee.normal_hit().damage_type == DamageType::Physical(melee.weapon.damage_type),
{
    lemma_of_nat_exact(melee.base_attack_damage as nat);
}

/// A charged strike hits with the base damage times the charge multiplier,
/// exactly, wherever that product is a binary32 number: if `exact` is that
/// number, it is the amount.
pub proof fn lemma_charged_hit_amount(melee: MeleeWeapon, exact: Float32)
    requires
        melee.base_attack_damage < 2 * HIDDEN_BIT,
        melee.charged_attack_damage_multiplier.is_finite(),
        exact.is_finite(),
        magnitude_units(exact.magnitude()) == melee.base_attack_damage * magnitude_units(
            melee.charged_attack_damage_multiplier.magnitude(),
        ),
    ensures
        melee.charged_hit().amount.magnitude() == exact.magnitude(),
        melee.charged_hit().amount.is_negative()
            == melee.charged_attack_damage_multiplier.is_negative(),
        melee.charged_hit().damage_type == DamageType::Physical(melee.weapon.damage_type),
{
    let base = Float32::of_nat(melee.base_attack_damage as nat);
    let factor = magnitude_units(melee.charged_attack_damage_multiplier.magnitude());
    let step = pow2(UNIT_SCALE as nat);
    lemma_of_nat_exact(melee.base_attack_damage as nat);
    assert((melee.base_attack_damage * factor) * step == (melee.base_attack_damage * step)
        * factor) by (nonlinear_arith);
    lemma_product_exact(base, melee.charged_attack_damage_multiplier, exact);
}

} // verus!
