use impact::actors::actor::{Actor, Body, BodyPart};
use impact::common::damage::{
    Damage, DamageResult, DamageType, Damageable, ElementalDamageType, PhysicalDamageType,
    PoisonDamageType,
};
use impact::common::float::Float32;
use impact::common::position::{XPosition, YPosition};
use impact::common::stats::{
    AgilityStat, CharismaStat, EnduranceStat, IntelligenceStat, PerceptionStat, Stats,
    StrengthStat,
};
use impact::common::status::StatusType;
use impact::objects::consumable::Consumable;
use impact::objects::object::Object;
use impact::objects::weapons::common::{Defend, Poisonable, Weapon};
use impact::objects::weapons::melee::{MeleeAttack, MeleeWeapon};
use impact::objects::weapons::ranged::{Projectile, RangedAttack, RangedWeapon};
use impact::world::map::WorldMap;
use rand::Rng;

fn num(x: f32) -> Float32 {
    Float32::from_bits(x.to_bits())
}

fn float(x: Float32) -> f32 {
    f32::from_bits(x.to_bits())
}

fn draw(low: Float32, high: Float32) -> Float32 {
    num(rand::thread_rng().gen_range(float(low)..=float(high)))
}

fn part(vital: bool, can_grab: bool, armor_low: u32, armor_high: u32) -> BodyPart {
    BodyPart::new("Part".to_string(), vital, can_grab, armor_low, armor_high, XPosition::Mid, YPosition::Mid)
}

fn hit(amount: f32) -> Damage {
    Damage { damage_type: DamageType::Poison(PoisonDamageType::Acid), amount: num(amount) }
}

fn object(name: &str) -> Object {
    Object::new(7, String::from(name), String::from("for a test"), 3, 4)
}

fn skills(x: f32) -> Stats {
    Stats::new(
        StrengthStat::new(1, 2),
        PerceptionStat::new(num(x), num(x), num(x), num(x), num(x)),
        EnduranceStat::new(3, 4, 5, num(x)),
        CharismaStat::new(num(x), num(x), num(x), num(x)),
        IntelligenceStat::new(num(x), num(x), num(x), num(x), num(x)),
        AgilityStat::new(6, num(x), num(x), num(x), num(x), num(x), num(x), num(x)),
    )
}

#[test]
fn a_part_is_made_exactly_where_its_thresholds_are_in_order() {
    for (low, high) in [(0u32, 0u32), (0, 1), (10, 10), (10, 40), (0, u32::MAX), (u32::MAX, u32::MAX)] {
        let made = BodyPart::try_new("Arm".to_string(), false, true, low, high, XPosition::Right, YPosition::High);
        let made = made.expect("thresholds in order");
        assert_eq!(made.armor_low(), low);
        assert_eq!(made.armor_high(), high);
        assert_eq!(made.name(), "Arm");
        assert_eq!(made.x_position(), XPosition::Right);
        assert_eq!(made.y_position(), YPosition::High);
    }
    for (low, high) in [(1u32, 0u32), (11, 10), (u32::MAX, 0), (u32::MAX, u32::MAX - 1)] {
        let made = BodyPart::try_new("Arm".to_string(), false, true, low, high, XPosition::Right, YPosition::High);
        assert!(made.is_none());
    }
}

#[test]
fn a_hit_on_a_threshold_goes_through() {
    let mut hand = part(false, true, 10, 40);
    assert_eq!(hand.damage(hit(10.0)), DamageResult::Damage(num(10.0)));
    assert_eq!(hand.damage(hit(40.0)), DamageResult::Damage(num(40.0)));
    assert_eq!(hand.damage(hit(9.999999)), DamageResult::NoDamage);
    assert_eq!(hand.damage(hit(40.000004)), DamageResult::Destroyed);
    assert_eq!(hand.damage(hit(25.5)), DamageResult::Damage(num(25.5)));
}

#[test]
fn a_vital_part_kills_where_another_is_destroyed() {
    let mut head = part(true, false, 10, 40);
    let mut hand = part(false, true, 10, 40);
    assert_eq!(head.damage(hit(41.0)), DamageResult::Killed);
    assert_eq!(hand.damage(hit(41.0)), DamageResult::Destroyed);
    assert_eq!(head.damage(hit(f32::INFINITY)), DamageResult::Killed);
    assert_eq!(head.damage(hit(9.0)), DamageResult::NoDamage);
    assert_eq!(head.damage(hit(10.0)), DamageResult::Damage(num(10.0)));
}

#[test]
fn hits_that_are_no_ordinary_amounts() {
    let mut hand = part(false, true, 10, 40);
    assert_eq!(hand.damage(hit(-5.0)), DamageResult::NoDamage);
    assert_eq!(hand.damage(hit(f32::NEG_INFINITY)), DamageResult::NoDamage);
    // a NaN is neither below nor above anything: it goes through
    match hand.damage(hit(f32::NAN)) {
        DamageResult::Damage(amount) => assert!(float(amount).is_nan()),
        other => panic!("{:?}", other),
    }
    let mut bare = part(false, true, 0, 0);
    assert_eq!(bare.damage(hit(0.0)), DamageResult::Damage(num(0.0)));
    assert_eq!(bare.damage(hit(-0.0)), DamageResult::Damage(num(-0.0)));
    assert_eq!(bare.damage(hit(-1.0)), DamageResult::NoDamage);
    assert_eq!(bare.damage(hit(1e-45)), DamageResult::Destroyed);
}

#[test]
fn a_hit_leaves_the_part_as_it_was() {
    let mut hand = part(false, true, 10, 40);
    for _ in 0..5 {
        // hits are judged one by one: they do not add up
        assert_eq!(hand.damage(hit(30.0)), DamageResult::Damage(num(30.0)));
    }
    assert_eq!(hand.armor_low(), 10);
    assert_eq!(hand.armor_high(), 40);
    assert!(!hand.vital());
    assert!(hand.can_grab());
}

#[test]
fn a_body_counts_the_parts_that_can_grab() {
    let body = Body::new(vec![], 1, 2);
    assert_eq!(body.n_able_arts(), 0);
    assert_eq!(body.n_able_arts_available(), 0);
    assert_eq!(body.body_parts().len(), 0);

    let parts = vec![
        part(false, true, 1, 2),
        part(true, false, 1, 2),
        part(false, true, 1, 2),
        part(false, true, 1, 2),
        part(false, false, 1, 2),
    ];
    let body = Body::new(parts, 180, 70);
    assert_eq!(body.n_able_arts(), 3);
    assert_eq!(body.n_able_arts_available(), 3);
    assert_eq!(body.body_parts().len(), 5);
    assert!(body.body_parts()[0].can_grab());
    assert!(body.body_parts()[1].vital());
    assert_eq!(body.height(), 180);
    assert_eq!(body.weight(), 70);
}

#[test]
fn stats_add_field_by_field() {
    let a = skills(0.25);
    let b = skills(0.5);
    let total = a + b;
    assert_eq!(total.strength, StrengthStat::new(2, 4));
    assert_eq!(total.endurance.stamina, 6);
    assert_eq!(total.endurance.base_stamina_used_for_movement, 8);
    assert_eq!(total.endurance.base_stamina_used_for_fighting, 10);
    assert_eq!(total.agility.max_sprint_speed, 12);
    assert_eq!(float(total.perception.vision), 0.75);
    assert_eq!(float(total.perception.night_vision_modifier), 0.75);
    assert_eq!(float(total.endurance.health_regen), 0.75);
    assert_eq!(float(total.charisma.performance), 0.75);
    assert_eq!(float(total.intelligence.creativity), 0.75);
    assert_eq!(float(total.agility.pickpocting), 0.75);
    assert_eq!(total, skills(0.75).checked_add(Stats::new(
        StrengthStat::new(1, 2),
        PerceptionStat::new(num(0.0), num(0.0), num(0.0), num(0.0), num(0.0)),
        EnduranceStat::new(3, 4, 5, num(0.0)),
        CharismaStat::new(num(0.0), num(0.0), num(0.0), num(0.0)),
        IntelligenceStat::new(num(0.0), num(0.0), num(0.0), num(0.0), num(0.0)),
        AgilityStat::new(6, num(0.0), num(0.0), num(0.0), num(0.0), num(0.0), num(0.0), num(0.0)),
    )).expect("the capacities fit"));
}

#[test]
fn stats_addition_commutes_and_has_a_zero() {
    for _ in 0..200 {
        let a = Stats::new_random(draw);
        let b = Stats::new_random(draw);
        assert_eq!(a + b, b + a);
        assert_eq!(a + Stats::new_zero(), a);
        assert_eq!(Stats::new_zero() + a, a);
    }
    // skills are not capped
    let high = skills(0.75) + skills(0.75);
    assert_eq!(float(high.perception.vision), 1.5);
}

#[test]
fn capacities_add_associatively() {
    for _ in 0..200 {
        let a = Stats::new_random(draw);
        let b = Stats::new_random(draw);
        let c = Stats::new_random(draw);
        let left = (a + b) + c;
        let right = a + (b + c);
        assert_eq!(left.strength, right.strength);
        assert_eq!(left.endurance.stamina, right.endurance.stamina);
        assert_eq!(left.agility.max_sprint_speed, right.agility.max_sprint_speed);
    }
}

#[test]
fn stats_that_do_not_fit_are_not_added() {
    let mut a = skills(0.5);
    let b = skills(0.5);
    a.agility.max_sprint_speed = u32::MAX - 5;
    assert!(a.checked_add(b).is_none());
    a.agility.max_sprint_speed = u32::MAX - 6;
    let total = a.checked_add(b).expect("the capacities fit");
    assert_eq!(total.agility.max_sprint_speed, u32::MAX);
}

#[test]
fn zero_stats_are_all_zero() {
    let zero = Stats::new_zero();
    assert_eq!(zero.strength.max_carry_weight, 0);
    assert_eq!(zero.strength.base_melee_force, 0);
    assert_eq!(zero.endurance.stamina, 0);
    assert_eq!(zero.agility.max_sprint_speed, 0);
    assert_eq!(zero.perception.vision.to_bits(), 0);
    assert_eq!(zero.endurance.health_regen.to_bits(), 0);
    assert_eq!(zero.charisma.deception.to_bits(), 0);
    assert_eq!(zero.intelligence.learning.to_bits(), 0);
    assert_eq!(zero.agility.acrobatics.to_bits(), 0);
}

#[test]
fn random_stats_lie_in_their_ranges() {
    let mut seen_carry = [false; 11];
    for _ in 0..500 {
        let stats = Stats::new_random(draw);
        for capacity in [
            stats.strength.max_carry_weight,
            stats.strength.base_melee_force,
            stats.endurance.stamina,
            stats.endurance.base_stamina_used_for_movement,
            stats.endurance.base_stamina_used_for_fighting,
            stats.agility.max_sprint_speed,
        ] {
            assert!(1 <= capacity && capacity <= 10);
        }
        seen_carry[stats.strength.max_carry_weight as usize] = true;
        for skill in [
            stats.perception.vision,
            stats.perception.hearing,
            stats.perception.smell,
            stats.perception.taste,
            stats.perception.night_vision_modifier,
            stats.charisma.intimidation,
            stats.charisma.persuasion,
            stats.charisma.deception,
            stats.charisma.performance,
            stats.intelligence.sensorary_memory,
            stats.intelligence.text_memory,
            stats.intelligence.learning,
            stats.intelligence.application,
            stats.intelligence.creativity,
            stats.agility.climbing,
            stats.agility.riding,
            stats.agility.swimming,
            stats.agility.parkour,
            stats.agility.stealth,
            stats.agility.acrobatics,
            stats.agility.pickpocting,
        ] {
            assert!(0.0 <= float(skill) && float(skill) <= 1.0);
        }
        let regen = float(stats.endurance.health_regen);
        assert!(0.001 <= regen && regen <= 0.005);
    }
    // the draws are draws: over five hundred of them, more than one value shows
    assert!(seen_carry.iter().filter(|seen| **seen).count() > 1);
    assert!(!seen_carry[0]);
}

#[test]
fn random_stats_take_their_skills_from_the_given_draw() {
    let stats = Stats::new_random(|_low: Float32, high: Float32| high);
    assert_eq!(float(stats.perception.vision), 1.0);
    assert_eq!(float(stats.agility.pickpocting), 1.0);
    assert_eq!(float(stats.endurance.health_regen), 0.005);
    let stats = Stats::new_random(|low: Float32, _high: Float32| low);
    assert_eq!(float(stats.charisma.intimidation), 0.0);
    assert_eq!(float(stats.endurance.health_regen), 0.001);
}

#[test]
fn an_actor_starts_without_modifiers_and_statuses() {
    let actor = Actor::new(Body::new(vec![part(false, true, 1, 2)], 180, 70), skills(0.5));
    assert_eq!(actor.base_stats, skills(0.5));
    assert_eq!(actor.stat_modifiers, Stats::new_zero());
    assert!(actor.statuses.is_empty());
    assert_eq!(actor.body.n_able_arts(), 1);
    assert_eq!(actor.get_stats(), skills(0.5));
}

#[test]
fn effective_stats_follow_the_modifiers() {
    let mut actor = Actor::new(Body::new(vec![], 180, 70), skills(0.5));
    assert_eq!(actor.get_stats(), skills(0.5));
    actor.stat_modifiers = skills(0.25);
    assert_eq!(actor.get_stats(), skills(0.5) + skills(0.25));
    assert_eq!(float(actor.get_stats().perception.smell), 0.75);
    assert_eq!(actor.get_stats().strength.max_carry_weight, 2);
    actor.stat_modifiers = skills(-0.5);
    assert_eq!(float(actor.get_stats().perception.smell), 0.0);
    actor.base_stats = skills(2.0);
    assert_eq!(float(actor.get_stats().perception.smell), 1.5);
    assert_eq!(actor.checked_stats(), Some(skills(2.0) + skills(-0.5)));
    actor.stat_modifiers.strength.base_melee_force = u32::MAX;
    assert_eq!(actor.checked_stats(), None);
    actor.statuses.insert(StatusType::Burn, 3);
    actor.statuses.insert(StatusType::Burn, 5);
    assert_eq!(actor.statuses.len(), 1);
    assert_eq!(actor.statuses[&StatusType::Burn], 5);
}

#[test]
fn defend_scales_the_amount_and_keeps_the_kind() {
    let kinds = [
        DamageType::Physical(PhysicalDamageType::Pierce),
        DamageType::Physical(PhysicalDamageType::Slash),
        DamageType::Elemental(ElementalDamageType::Heat),
        DamageType::Poison(PoisonDamageType::Acid),
    ];
    for kind in kinds {
        for (multiplier, amount, left) in [
            (1.0f32, 37.5f32, 37.5f32),
            (0.0, 37.5, 0.0),
            (0.5, 100.0, 50.0),
            (0.25, 10.0, 2.5),
            (2.0, 10.0, 20.0),
            (0.1, 3.0, 0.1f32 * 3.0f32),
        ] {
            let weapon = Weapon::new(object("Shield"), 1, num(multiplier), PhysicalDamageType::Impact);
            let result = weapon.defend(Damage { damage_type: kind, amount: num(amount) });
            assert_eq!(result.damage_type, kind);
            assert_eq!(float(result.amount), left);
        }
    }
}

#[test]
fn melee_attacks_hit_with_the_kind_of_the_weapon() {
    for kind in [PhysicalDamageType::Pierce, PhysicalDamageType::Impact, PhysicalDamageType::Slash] {
        let weapon = Weapon::new(object("Blade"), 10, num(0.5), kind);
        let melee = MeleeWeapon::new(weapon, 100, 10, num(2.0), 20);
        assert!(melee.applicable.is_none());
        let normal = melee.normal_attack();
        assert_eq!(normal.damage_type, DamageType::Physical(kind));
        assert_eq!(float(normal.amount), 100.0);
        let charged = melee.charged_attack();
        assert_eq!(charged.damage_type, DamageType::Physical(kind));
        assert_eq!(float(charged.amount), 200.0);
    }
    let weapon = Weapon::new(object("Club"), 10, num(0.5), PhysicalDamageType::Impact);
    let melee = MeleeWeapon::new(weapon, 7, 10, num(1.5), 20);
    assert_eq!(float(melee.normal_attack().amount), 7.0);
    assert_eq!(float(melee.charged_attack().amount), 10.5);
    let weapon = Weapon::new(object("Maul"), 10, num(0.5), PhysicalDamageType::Impact);
    let melee = MeleeWeapon::new(weapon, u32::MAX, 10, num(0.1), 20);
    assert_eq!(float(melee.normal_attack().amount), u32::MAX as f32);
    assert_eq!(float(melee.charged_attack().amount), u32::MAX as f32 * 0.1f32);
}

#[test]
fn a_shot_takes_only_the_base_damage_from_the_projectile() {
    let weapon = Weapon::new(object("Bow"), 10, num(0.5), PhysicalDamageType::Pierce);
    let bow = RangedWeapon::new(weapon, num(2.0), 10, 100, 20);
    let plain = Projectile::new(object("Arrow"), 50);
    assert!(plain.applicable.is_none());
    let mut laced = Projectile::new(object("Laced arrow"), 50);
    laced.applicable = Some(Consumable::new(object("Venom"), (vec![(StatusType::Sleep, 4)], vec![])));
    let first = bow.shoot(plain);
    let second = bow.shoot(laced);
    assert_eq!(float(first.amount), 100.0);
    assert_eq!(first.damage_type, DamageType::Physical(PhysicalDamageType::Pierce));
    assert_eq!(float(second.amount), 100.0);
    assert_eq!(second.damage_type, DamageType::Physical(PhysicalDamageType::Pierce));
    assert_eq!(float(bow.shoot(Projectile::new(object("Bolt"), 3)).amount), 6.0);
}

#[test]
fn applying_a_potion_replaces_the_one_before() {
    let weapon = Weapon::new(object("Dagger"), 10, num(0.5), PhysicalDamageType::Pierce);
    let mut dagger = MeleeWeapon::new(weapon, 100, 10, num(2.0), 20);
    assert!(dagger.applicable.is_none());
    dagger.apply_potion_on_object(Consumable::new(object("First"), (vec![(StatusType::Terror, 10)], vec![])));
    assert_eq!(dagger.applicable.as_ref().map(|c| c.object.name.as_str()), Some("First"));
    dagger.apply_potion_on_object(Consumable::new(object("Second"), (vec![], vec![(skills(0.5), 3)])));
    let bound = dagger.applicable.as_ref().expect("a potion is applied");
    assert_eq!(bound.object.name, "Second");
    assert!(bound.effects.0.is_empty());
    assert_eq!(bound.effects.1.len(), 1);
    dagger.apply_potion(Consumable::new(object("Third"), (vec![(StatusType::Burn, 2)], vec![])));
    let bound = dagger.applicable.as_ref().expect("a potion is applied");
    assert_eq!(bound.object.name, "Third");
    assert_eq!(bound.effects.0, vec![(StatusType::Burn, 2)]);
    // the weapon itself is as it was
    assert_eq!(dagger.base_attack_damage, 100);
    assert_eq!(float(dagger.charged_attack_damage_multiplier), 2.0);
    assert_eq!(dagger.weapon.object.name, "Dagger");
}

#[test]
fn a_hit_runs_from_the_weapon_through_the_defense_to_the_part() {
    let sword = MeleeWeapon::new(
        Weapon::new(object("Sword"), 10, num(0.5), PhysicalDamageType::Slash),
        60,
        10,
        num(2.0),
        20,
    );
    let shield = Weapon::new(object("Shield"), 10, num(0.25), PhysicalDamageType::Impact);
    let mut arm = part(false, true, 10, 40);
    let mut head = part(true, false, 10, 20);

    let blocked = shield.defend(sword.normal_attack());
    assert_eq!(float(blocked.amount), 15.0);
    assert_eq!(arm.damage(blocked), DamageResult::Damage(num(15.0)));
    let blocked = shield.defend(sword.charged_attack());
    assert_eq!(float(blocked.amount), 30.0);
    assert_eq!(arm.damage(blocked), DamageResult::Damage(num(30.0)));
    assert_eq!(head.damage(blocked), DamageResult::Killed);
    assert_eq!(arm.damage(sword.charged_attack()), DamageResult::Destroyed);
}

#[test]
fn a_new_map_is_uncharted() {
    let map = WorldMap::new(30, 20);
    assert_eq!(map.width, 30);
    assert_eq!(map.height, 20);
    assert!(map.biomes.is_empty());
    assert!(map.locations.is_empty());
}

struct Dummy;

impl Damageable for Dummy {}

#[test]
fn a_target_that_says_nothing_else_takes_the_whole_amount() {
    let mut dummy = Dummy;
    assert_eq!(dummy.damage(hit(12.5)), DamageResult::Damage(num(12.5)));
    assert_eq!(dummy.damage(hit(0.0)), DamageResult::Damage(num(0.0)));
    assert_eq!(dummy.damage(hit(1e30)), DamageResult::Damage(num(1e30)));
}
