//! Bodies, body parts, and the actor that owns them.

use std::collections::HashMap;
use vstd::prelude::*;
use crate::common::damage::{Damage, DamageResult, Damageable};
use crate::common::float::lemma_below_is_not_above;
use crate::common::position::{XPosition, YPosition};
use crate::common::stats::Stats;

pub use crate::common::status::StatusType;

verus! {

/// One independently damageable part of a body.
///
/// Its two armor thresholds bound the band in which a hit does graded damage:
/// a weaker hit is absorbed, a stronger one destroys the part. The lower
/// threshold never exceeds the upper one.
pub struct BodyPart {
    name: String,
    vital: bool,
    can_grab: bool,
    armor_low: u32,
    armor_high: u32,
    x_position: XPosition,
    y_position: YPosition,
}

/// The outcome of a hit of `damage` on a part with the given thresholds.
pub open spec fn resolve_hit(damage: Damage, armor_low: u32, armor_high: u32, vital: bool)
    -> DamageResult {
    if damage.amount.lt_int(armor_low as int) {
        DamageResult::NoDamage
    } else if damage.amount.gt_int(armor_high as int) {
        if vital {
            DamageResult::Killed
        } else {
            DamageResult::Destroyed
        }
    } else {
        DamageResult::Damage(damage.amount)
    }
}

impl BodyPart {
    #[verifier::type_invariant]
    spec fn thresholds_ordered(self) -> bool {
        self.armor_low <= self.armor_high
    }

    pub closed spec fn spec_name(&self) -> Seq<char> {
        self.name@
    }

    pub closed spec fn spec_vital(&self) -> bool {
        self.vital
    }

    pub closed spec fn spec_can_grab(&self) -> bool {
        self.can_grab
    }

    pub closed spec fn spec_armor_low(&self) -> u32 {
        self.armor_low
    }

    pub closed spec fn spec_armor_high(&self) -> u32 {
        self.armor_high
    }

    pub closed spec fn spec_x_position(&self) -> XPosition {
        self.x_position
    }

    pub closed spec fn spec_y_position(&self) -> YPosition {
        self.y_position
    }

    /// A part with the given thresholds. The lower one must not exceed the
    /// upper one: a part that breaks that order cannot be made.
    pub fn new(
        name: String,
        vital: bool,
        can_grab: bool,
        armor_low: u32,
        armor_high: u32,
        x_position: XPosition,
        y_position: YPosition,
    ) -> (part: BodyPart)
        requires
            armor_low <= armor_high,
        ensures
            part.spec_name() == name@,
            part.spec_vital() == vital,
            part.spec_can_grab() == can_grab,
            part.spec_armor_low() == armor_low,
            part.spec_armor_high() == armor_high,
            part.spec_x_position() == x_position,
            part.spec_y_position() == y_position,
    {
        BodyPart { name, vital, can_grab, armor_low, armor_high, x_position, y_position }
    }

    /// The same as [`BodyPart::new`] where the thresholds are in order, and
    /// nothing where they are not.
    pub fn try_new(
        name: String,
        vital: bool,
        can_grab: bool,
        armor_low: u32,
        armor_high: u32,
        x_position: XPosition,
        y_position: YPosition,
    ) -> (made: Option<BodyPart>)
        ensures
            made is Some <==> armor_low <= armor_high,
            made matches Some(part) ==> {
                &&& part.spec_name() == name@
                &&& part.spec_vital() == vital
                &&& part.spec_can_grab() == can_grab
                &&& part.spec_armor_low() == armor_low
                &&& part.spec_armor_high() == armor_high
                &&& part.spec_x_position() == x_position
                &&& part.spec_y_position() == y_position
            },
    {
        if armor_low <= armor_high {
            Some(
                BodyPart::new(name, vital, can_grab, armor_low, armor_high, x_position, y_position),
            )
        } else {
            None
        }
    }

    pub fn name(&self) -> (name: &String)
        ensures
            name@ == self.spec_name(),
    {
        &self.name
    }

    /// Whether losing this part kills its owner.
    #[verifier::when_used_as_spec(spec_vital)]
    pub fn vital(&self) -> (vital: bool)
        ensures
            vital == self.spec_vital(),
    {
        self.vital
    }

    /// Whether this part can wield a weapon.
    #[verifier::when_used_as_spec(spec_can_grab)]
    pub fn can_grab(&self) -> (can_grab: bool)
        ensures
            can_grab == self.spec_can_grab(),
    {
        self.can_grab
    }

    /// The threshold below which a hit does nothing. It never exceeds
    /// [`BodyPart::armor_high`].
    #[verifier::when_used_as_spec(spec_armor_low)]
    pub fn armor_low(&self) -> (armor_low: u32)
        ensures
            armor_low == self.spec_armor_low(),
            armor_low <= self.spec_armor_high(),
    {
        proof {
            use_type_invariant(self);
        }
        self.armor_low
    }

    /// The threshold above which a hit destroys the part.
    #[verifier::when_used_as_spec(spec_armor_high)]
    pub fn armor_high(&self) -> (armor_high: u32)
        ensures
            armor_high == self.spec_armor_high(),
            self.spec_armor_low() <= armor_high,
    {
        proof {
            use_type_invariant(self);
        }
        self.armor_high
    }

    #[verifier::when_used_as_spec(spec_x_position)]
    pub fn x_position(&self) -> (x_position: XPosition)
        ensures
            x_position == self.spec_x_position(),
    {
        self.x_position
    }

    #[verifier::when_used_as_spec(spec_y_position)]
    pub fn y_position(&self) -> (y_position: YPosition)
        ensures
            y_position == self.spec_y_position(),
    {
        self.y_position
    }
}

impl Damageable for BodyPart {
    /// A body part resolves hits against its thresholds.
    open spec fn takes_hits_whole(&self) -> bool {
        false
    }

    /// Resolves one hit against the thresholds of the part, which itself
    /// stays as it was: a hit below the lower threshold does nothing, one
    /// above the upper threshold destroys the part (and kills, where the part
    /// is vital), and any other goes through whole. A hit on a threshold is
    /// such another, and so is a NaN, which lies neither below nor above.
    ///
    /// The amount is held against the thresholds as a number, exactly. Every
    /// hit is judged by itself: what earlier hits did is for the caller to
    /// keep.
    fn damage(&mut self, damage: Damage) -> (result: DamageResult)
        ensures
            *final(self) == *old(self),
            old(self).spec_armor_low() <= old(self).spec_armor_high(),
            result == resolve_hit(
                damage,
                old(self).spec_armor_low(),
                old(self).spec_armor_high(),
                old(self).spec_vital(),
            ),
            damage.amount.lt_int(old(self).spec_armor_low() as int) ==> result
                == DamageResult::NoDamage,
            !damage.amount.lt_int(old(self).spec_armor_low() as int) && !damage.amount.gt_int(
                old(self).spec_armor_high() as int,
            ) ==> result == DamageResult::Damage(damage.amount),
            damage.amount.gt_int(old(self).spec_armor_high() as int) && !old(self).spec_vital()
                ==> result == DamageResult::Destroyed,
            damage.amount.gt_int(old(self).spec_armor_high() as int) && old(self).spec_vital()
                ==> result == DamageResult::Killed,
    {
        proof {
            use_type_invariant(&*self);
            lemma_below_is_not_above(damage.amount, self.armor_low as int, self.armor_high as int);
        }
        if damage.amount.lt_u32(self.armor_low) {
            DamageResult::NoDamage
        } else if damage.amount.gt_u32(self.armor_high) {
            if self.vital {
                DamageResult::Killed
            } else {
                DamageResult::Destroyed
            }
        } else {
            // room for a curve that eases from nothing at the lower threshold
            // to the whole amount at the upper one
            DamageResult::Damage(damage.amount)
        }
    }
}

/// How many of the parts can wield a weapon.
pub open spec fn grab_count(parts: Seq<BodyPart>) -> nat
    decreases parts.len(),
{
    if parts.len() == 0 {
        0
    } else {
        grab_count(parts.drop_last()) + if parts.last().spec_can_grab() {
            1nat
        } else {
            0nat
        }
    }
}

/// A prefix of a body holds no more grab-capable parts than the whole.
pub proof fn lemma_grab_count_prefix(parts: Seq<BodyPart>, n: int)
    requires
        0 <= n <= parts.len(),
    ensures
        grab_count(parts.take(n)) <= grab_count(parts),
    decreases parts.len() - n,
{
    if n == parts.len() {
        assert(parts.take(n) =~= parts);
    } else {
        lemma_grab_count_prefix(parts, n + 1);
        assert(parts.take(n + 1).drop_last() =~= parts.take(n));
    }
}

/// A body: its parts in order, its size, and how many weapons it can hold.
///
/// `n_able_arts` counts the parts that can wield a weapon;
/// `n_able_arts_available` counts those of them that are still free, and
/// never exceeds it.
pub struct Body {
    body_parts: Vec<BodyPart>,
    n_able_arts: u32,
    n_able_arts_available: u32,
    height: u32,
    weight: u32,
}

impl Body {
    #[verifier::type_invariant]
    spec fn counters_agree(self) -> bool {
        &&& self.n_able_arts == grab_count(self.body_parts@)
        &&& self.n_able_arts_available <= self.n_able_arts
    }

    pub closed spec fn spec_body_parts(&self) -> Seq<BodyPart> {
        self.body_parts@
    }

    pub closed spec fn spec_n_able_arts(&self) -> u32 {
        self.n_able_arts
    }

    pub closed spec fn spec_n_able_arts_available(&self) -> u32 {
        self.n_able_arts_available
    }

    pub closed spec fn spec_height(&self) -> u32 {
        self.height
    }

    pub closed spec fn spec_weight(&self) -> u32 {
        self.weight
    }

    /// Assembles a body. Every part that can wield a weapon is counted, and
    /// all of them start out free.
    pub fn new(body_parts: Vec<BodyPart>, height: u32, weight: u32) -> (body: Body)
        requires
            grab_count(body_parts@) <= u32::MAX,
        ensures
            body.spec_body_parts() == body_parts@,
            body.spec_height() == height,
            body.spec_weight() == weight,
            body.spec_n_able_arts() == grab_count(body_parts@),
            body.spec_n_able_arts_available() == grab_count(body_parts@),
    {
        let mut n_able_arts: u32 = 0;
        let mut i: usize = 0;
        while i < body_parts.len()
            invariant
                i <= body_parts.len(),
                n_able_arts == grab_count(body_parts@.take(i as int)),
                grab_count(body_parts@) <= u32::MAX,
            decreases body_parts.len() - i,
        {
            proof {
                lemma_grab_count_prefix(body_parts@, i + 1);
                assert(body_parts@.take(i + 1).drop_last() =~= body_parts@.take(i as int));
            }
            if body_parts[i].can_grab() {
                n_able_arts = n_able_arts + 1;
            }
            i = i + 1;
        }
        proof {
            assert(body_parts@.take(i as int) =~= body_parts@);
        }
        Body { body_parts, height, weight, n_able_arts, n_able_arts_available: n_able_arts }
    }

    /// The parts, in the order in which the body was assembled.
    pub fn body_parts(&self) -> (parts: &Vec<BodyPart>)
        ensures
            parts@ == self.spec_body_parts(),
    {
        &self.body_parts
    }

    /// How many parts can wield a weapon.
    #[verifier::when_used_as_spec(spec_n_able_arts)]
    pub fn n_able_arts(&self) -> (n: u32)
        ensures
            n == self.spec_n_able_arts(),
            n == grab_count(self.spec_body_parts()),
    {
        proof {
            use_type_invariant(self);
        }
        self.n_able_arts
    }

    /// How many of the parts that can wield a weapon are still free.
    #[verifier::when_used_as_spec(spec_n_able_arts_available)]
    pub fn n_able_arts_available(&self) -> (n: u32)
        ensures
            n == self.spec_n_able_arts_available(),
            n <= self.spec_n_able_arts(),
    {
        proof {
            use_type_invariant(self);
        }
        self.n_able_arts_available
    }

    #[verifier::when_used_as_spec(spec_height)]
    pub fn height(&self) -> (height: u32)
        ensures
            height == self.spec_height(),
    {
        self.height
    }

    #[verifier::when_used_as_spec(spec_weight)]
    pub fn weight(&self) -> (weight: u32)
        ensures
            weight == self.spec_weight(),
    {
        self.weight
    }
}

/// A creature in the world: one body, the statistics it was made with, what
/// equipment and effects add to them, and the statuses it is under.
///
/// `statuses` maps a status to the time it still lasts; a status that maps
/// to zero is as good as absent. What changes the modifiers and the statuses
/// lies outside: an actor holds them and answers for their sum.
pub struct Actor {
    pub body: Body,
    pub base_stats: Stats,
    pub stat_modifiers: Stats,
    pub statuses: HashMap<StatusType, u32>,
}

impl Actor {
    /// An actor with no modifiers and under no status.
    pub fn new(body: Body, base_stats: Stats) -> (actor: Actor)
        ensures
            actor.body == body,
            actor.base_stats == base_stats,
            actor.stat_modifiers == Stats::zero(),
            actor.statuses@ == Map::<StatusType, u32>::empty(),
    {
        Actor { body, base_stats, stat_modifiers: Stats::new_zero(), statuses: HashMap::new() }
    }

    /// The statistics in effect: the base statistics plus the modifiers, as
    /// they are at the time of the call. The capacities of the two must add
    /// up within thirty-two bits.
    pub fn get_stats(&self) -> (stats: Stats)
        requires
            self.base_stats.fits(self.stat_modifiers),
        ensures
            stats == self.base_stats.sum(self.stat_modifiers),
    {
        self.base_stats + self.stat_modifiers
    }

    /// The same as [`Actor::get_stats`] where the capacities add up within
    /// thirty-two bits, and nothing where they do not.
    pub fn checked_stats(&self) -> (stats: Option<Stats>)
        ensures
            stats is Some <==> self.base_stats.fits(self.stat_modifiers),
            stats matches Some(total) ==> total == self.base_stats.sum(self.stat_modifiers),
    {
        self.base_stats.checked_add(self.stat_modifiers)
    }
}

} // verus!
