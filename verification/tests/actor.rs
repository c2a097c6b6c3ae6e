use impact::actors::actor::{Actor, Body, BodyPart};
use impact::common::damage::{
    Damage, DamageResult, DamageType, Damageable, ElementalDamageType, PhysicalDamageType,
};
use impact::common::float::Float32;
use impact::common::position::{XPosition, YPosition};
use impact::common::stats::Stats;
use rand::Rng;

fn num(x: f32) -> Float32 {
    Float32::from_bits(x.to_bits())
}

fn draw(low: Float32, high: Float32) -> Float32 {
    let low = f32::from_bits(low.to_bits());
    let high = f32::from_bits(high.to_bits());
    num(rand::thread_rng().gen_range(low..=high))
}

#[test]
fn test_actor_new() {
    let body = Body::new(vec![], 180, 70);
    let base_stats = Stats::new_random(draw);
    let actor = Actor::new(body, base_stats);
    assert_eq!(actor.base_stats, base_stats);
    assert_eq!(actor.stat_modifiers, Stats::new_zero());
}

#[test]
fn test_actor_get_stats() {
    let body = Body::new(vec![], 180, 70);
    let base_stats = Stats::new_random(draw);
    let stat_modifiers = Stats::new_random(draw);
    let mut actor = Actor::new(body, base_stats.clone());
    actor.stat_modifiers = stat_modifiers.clone();
    assert_eq!(actor.stat_modifiers, stat_modifiers);
    let stats = actor.get_stats();
    assert_eq!(stats, base_stats + stat_modifiers);
}

#[test]
fn test_body_new() {
    let body_parts = vec![
        BodyPart::new("Hand".to_string(), false, true, 10, 10, XPosition::Left, YPosition::Low),
        BodyPart::new("Head".to_string(), true, false, 20, 20, XPosition::Mid, YPosition::High),
    ];
    let body = Body::new(body_parts, 180, 70);
    assert_eq!(body.height(), 180);
    assert_eq!(body.weight(), 70);
    assert_eq!(body.n_able_arts(), 1);
}

#[test]
fn test_body_part_new() {
    let body_part =
        BodyPart::new("Hand".to_string(), false, true, 10, 10, XPosition::Left, YPosition::Low);
    assert_eq!(body_part.name(), "Hand");
    assert_eq!(body_part.vital(), false);
    assert_eq!(body_part.can_grab(), true);
}

#[test]
fn test_body_part_damage() {
    let mut body_part =
        BodyPart::new("Hand".to_string(), false, true, 10, 40, XPosition::Left, YPosition::Low);
    let damage =
        Damage { amount: num(5.0), damage_type: DamageType::Elemental(ElementalDamageType::Cold) };
    let result = body_part.damage(damage);
    assert_eq!(result, DamageResult::NoDamage);

    let damage =
        Damage { amount: num(15.0), damage_type: DamageType::Elemental(ElementalDamageType::Cold) };
    let result = body_part.damage(damage);
    assert_eq!(result, DamageResult::Damage(num(15.0)));

    let damage =
        Damage { amount: num(50.0), damage_type: DamageType::Elemental(ElementalDamageType::Cold) };
    let result = body_part.damage(damage);
    assert_eq!(result, DamageResult::Destroyed);
}

#[test]
fn test_body_part_kill() {
    let mut body_part =
        BodyPart::new("Head".to_string(), true, false, 10, 10, XPosition::Left, YPosition::Low);

    let damage =
        Damage { amount: num(25.0), damage_type: DamageType::Physical(PhysicalDamageType::Slash) };
    let result = body_part.damage(damage);
    assert_eq!(result, DamageResult::Killed);
}
