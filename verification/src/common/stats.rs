//! Combat statistics: six blocks of named numbers, added field by field.
//!
//! A field is either a capacity, a whole number (carry weight, stamina, melee
//! force, sprint speed), or a skill, a binary32 score that by convention lies
//! between zero and one. Nothing caps a sum of skills; a sum of capacities has
//! to fit in thirty-two bits.

use vstd::prelude::*;
use vstd::std_specs::ops::AddSpecImpl;
use rand::Rng;
use crate::common::arithmetic::{lemma_sum_commutes, lemma_sum_with_zero};
use crate::common::float::{Float32, ONE_BITS};

verus! {

/// The least capacity that [`Stats::new_random`] draws.
pub const CAPACITY_LOW: u32 = 1;

/// The greatest capacity that [`Stats::new_random`] draws.
pub const CAPACITY_HIGH: u32 = 10;

/// The bits of 0.001, the least health regeneration that
/// [`Stats::new_random`] asks for.
pub const REGEN_LOW_BITS: u32 = 0x3a83_126f;

/// The bits of 0.005, the greatest health regeneration that
/// [`Stats::new_random`] asks for.
pub const REGEN_HIGH_BITS: u32 = 0x3ba3_d70a;

/// How much an actor can carry and how hard it hits.
#[derive(PartialEq, Clone, Copy, Debug)]
pub struct StrengthStat {
    pub max_carry_weight: u32,
    /// The force of a blow, before the weapon's weight, the actor's strength
    /// and the wind-up are taken into account.
    pub base_melee_force: u32,
}

impl StrengthStat {
    pub fn new(max_carry_weight: u32, base_melee_force: u32) -> (stat: StrengthStat)
        ensures
            stat == (StrengthStat { max_carry_weight, base_melee_force }),
    {
        StrengthStat { max_carry_weight, base_melee_force }
    }

    /// Whether every sum of two capacities fits in thirty-two bits.
    pub open spec fn fits(self, rhs: StrengthStat) -> bool {
        &&& self.max_carry_weight + rhs.max_carry_weight <= u32::MAX
        &&& self.base_melee_force + rhs.base_melee_force <= u32::MAX
    }

    /// The sum, field by field.
    pub open spec fn sum(self, rhs: StrengthStat) -> StrengthStat {
        StrengthStat {
            max_carry_weight: (self.max_carry_weight + rhs.max_carry_weight) as u32,
            base_melee_force: (self.base_melee_force + rhs.base_melee_force) as u32,
        }
    }

    /// The block whose every field is zero.
    pub open spec fn zero() -> StrengthStat {
        StrengthStat {
            max_carry_weight: 0,
            base_melee_force: 0,
        }
    }

    /// Equality of blocks: capacities are equal, and skills are equal as
    /// numbers are.
    pub open spec fn same(self, rhs: StrengthStat) -> bool {
        &&& self.max_carry_weight == rhs.max_carry_weight
        &&& self.base_melee_force == rhs.base_melee_force
    }

    /// Whether every capacity lies between `low` and `high`.
    pub open spec fn capacities_within(self, low: u32, high: u32) -> bool {
        &&& low <= self.max_carry_weight <= high
        &&& low <= self.base_melee_force <= high
    }
}

impl core::ops::Add for StrengthStat {
    type Output = StrengthStat;

    fn add(self, rhs: StrengthStat) -> (total: StrengthStat) {
        StrengthStat {
            max_carry_weight: self.max_carry_weight + rhs.max_carry_weight,
            base_melee_force: self.base_melee_force + rhs.base_melee_force,
        }
    }
}

impl AddSpecImpl for StrengthStat {
    open spec fn obeys_add_spec() -> bool {
        true
    }

    open spec fn add_req(self, rhs: StrengthStat) -> bool {
        self.fits(rhs)
    }

    open spec fn add_spec(self, rhs: StrengthStat) -> StrengthStat {
        self.sum(rhs)
    }
}

/// How well an actor senses the world.
#[derive(PartialEq, Clone, Copy, Debug)]
pub struct PerceptionStat {
    pub vision: Float32,
    pub hearing: Float32,
    pub smell: Float32,
    pub taste: Float32,
    /// Multiplied by `vision` to get the vision in the dark.
    pub night_vision_modifier: Float32,
}

impl PerceptionStat {
    pub fn new(
        vision: Float32,
        hearing: Float32,
        smell: Float32,
        taste: Float32,
        night_vision_modifier: Float32,
    ) -> (stat: PerceptionStat)
        ensures
            stat == (PerceptionStat { vision, hearing, smell, taste, night_vision_modifier }),
    {
        PerceptionStat { vision, hearing, smell, taste, night_vision_modifier }
    }

    /// The sum, field by field.
    pub open spec fn sum(self, rhs: PerceptionStat) -> PerceptionStat {
        PerceptionStat {
            vision: self.vision.sum(rhs.vision),
            hearing: self.hearing.sum(rhs.hearing),
            smell: self.smell.sum(rhs.smell),
            taste: self.taste.sum(rhs.taste),
            night_vision_modifier: self.night_vision_modifier.sum(rhs.night_vision_modifier),
        }
    }

    /// The block whose every field is zero.
    pub open spec fn zero() -> PerceptionStat {
        PerceptionStat {
            vision: Float32 { bits: 0 },
            hearing: Float32 { bits: 0 },
            smell: Float32 { bits: 0 },
            taste: Float32 { bits: 0 },
            night_vision_modifier: Float32 { bits: 0 },
        }
    }

    /// Whether a skill is a NaN.
    pub open spec fn has_nan(self) -> bool {
        ||| self.vision.is_nan()
        ||| self.hearing.is_nan()
        ||| self.smell.is_nan()
        ||| self.taste.is_nan()
        ||| self.night_vision_modifier.is_nan()
    }

    /// Equality of blocks: capacities are equal, and skills are equal as
    /// numbers are.
    pub open spec fn same(self, rhs: PerceptionStat) -> bool {
        &&& self.vision.same_number(rhs.vision)
        &&& self.hearing.same_number(rhs.hearing)
        &&& self.smell.same_number(rhs.smell)
        &&& self.taste.same_number(rhs.taste)
        &&& self.night_vision_modifier.same_number(rhs.night_vision_modifier)
    }

    /// Whether `holds` is true of every skill.
    pub open spec fn each_skill(self, holds: spec_fn(Float32) -> bool) -> bool {
        &&& holds(self.vision)
        &&& holds(self.hearing)
        &&& holds(self.smell)
        &&& holds(self.taste)
        &&& holds(self.night_vision_modifier)
    }
}

impl core::ops::Add for PerceptionStat {
    type Output = PerceptionStat;

    fn add(self, rhs: PerceptionStat) -> (total: PerceptionStat) {
        PerceptionStat {
            vision: self.vision + rhs.vision,
            hearing: self.hearing + rhs.hearing,
            smell: self.smell + rhs.smell,
            taste: self.taste + rhs.taste,
            night_vision_modifier: self.night_vision_modifier + rhs.night_vision_modifier,
        }
    }
}

impl AddSpecImpl for PerceptionStat {
    open spec fn obeys_add_spec() -> bool {
        true
    }

    open spec fn add_req(self, rhs: PerceptionStat) -> bool {
        true
    }

    open spec fn add_spec(self, rhs: PerceptionStat) -> PerceptionStat {
        self.sum(rhs)
    }
}

/// How long an actor lasts.
#[derive(PartialEq, Clone, Copy, Debug)]
pub struct EnduranceStat {
    pub stamina: u32,
    /// Stamina spent on moving for a fixed time, before speed, terrain,
    /// weather and equipment are taken into account.
    pub base_stamina_used_for_movement: u32,
    /// Stamina spent on fighting for a fixed time, before the weapon and the
    /// combat style are taken into account.
    pub base_stamina_used_for_fighting: u32,
    /// Health gained per unit of time.
    pub health_regen: Float32,
}

impl EnduranceStat {
    pub fn new(
        stamina: u32,
        base_stamina_used_for_movement: u32,
        base_stamina_used_for_fighting: u32,
        health_regen: Float32,
    ) -> (stat: EnduranceStat)
        ensures
            stat == (EnduranceStat {
                stamina,
                base_stamina_used_for_movement,
                base_stamina_used_for_fighting,
                health_regen,
            }),
    {
        EnduranceStat {
            stamina,
            base_stamina_used_for_movement,
            base_stamina_used_for_fighting,
            health_regen,
        }
    }

    /// Whether every sum of two capacities fits in thirty-two bits.
    pub open spec fn fits(self, rhs: EnduranceStat) -> bool {
        &&& self.stamina + rhs.stamina <= u32::MAX
        &&& self.base_stamina_used_for_movement + rhs.base_stamina_used_for_movement <= u32::MAX
        &&& self.base_stamina_used_for_fighting + rhs.base_stamina_used_for_fighting <= u32::MAX
    }

    /// The sum, field by field.
    pub open spec fn sum(self, rhs: EnduranceStat) -> EnduranceStat {
        EnduranceStat {
            stamina: (self.stamina + rhs.stamina) as u32,
            base_stamina_used_for_movement: (self.base_stamina_used_for_movement
                + rhs.base_stamina_used_for_movement) as u32,
            base_stamina_used_for_fighting: (self.base_stamina_used_for_fighting
                + rhs.base_stamina_used_for_fighting) as u32,
            health_regen: self.health_regen.sum(rhs.health_regen),
        }
    }

    /// The block whose every field is zero.
    pub open spec fn zero() -> EnduranceStat {
        EnduranceStat {
            stamina: 0,
            base_stamina_used_for_movement: 0,
            base_stamina_used_for_fighting: 0,
            health_regen: Float32 { bits: 0 },
        }
    }

    /// Whether a skill is a NaN.
    pub open spec fn has_nan(self) -> bool {
        ||| self.health_regen.is_nan()
    }

    /// Equality of blocks: capacities are equal, and skills are equal as
    /// numbers are.
    pub open spec fn same(self, rhs: EnduranceStat) -> bool {
        &&& self.stamina == rhs.stamina
        &&& self.base_stamina_used_for_movement == rhs.base_stamina_used_for_movement
        &&& self.base_stamina_used_for_fighting == rhs.base_stamina_used_for_fighting
        &&& self.health_regen.same_number(rhs.health_regen)
    }

    /// Whether every capacity lies between `low` and `high`.
    pub open spec fn capacities_within(self, low: u32, high: u32) -> bool {
        &&& low <= self.stamina <= high
        &&& low <= self.base_stamina_used_for_movement <= high
        &&& low <= self.base_stamina_used_for_fighting <= high
    }

    /// Whether `holds` is true of every skill.
    pub open spec fn each_skill(self, holds: spec_fn(Float32) -> bool) -> bool {
        &&& holds(self.health_regen)
    }
}

impl core::ops::Add for EnduranceStat {
    type Output = EnduranceStat;

    fn add(self, rhs: EnduranceStat) -> (total: EnduranceStat) {
        EnduranceStat {
            stamina: self.stamina + rhs.stamina,
            base_stamina_used_for_movement: self.base_stamina_used_for_movement
                + rhs.base_stamina_used_for_movement,
            base_stamina_used_for_fighting: self.base_stamina_used_for_fighting
                + rhs.base_stamina_used_for_fighting,
            health_regen: self.health_regen + rhs.health_regen,
        }
    }
}

impl AddSpecImpl for EnduranceStat {
    open spec fn obeys_add_spec() -> bool {
        true
    }

    open spec fn add_req(self, rhs: EnduranceStat) -> bool {
        self.fits(rhs)
    }

    open spec fn add_spec(self, rhs: EnduranceStat) -> EnduranceStat {
        self.sum(rhs)
    }
}

/// How an actor sways others.
#[derive(PartialEq, Clone, Copy, Debug)]
pub struct CharismaStat {
    pub intimidation: Float32,
    pub persuasion: Float32,
    pub deception: Float32,
    pub performance: Float32,
}

impl CharismaStat {
    pub fn new(
        intimidation: Float32,
        persuasion: Float32,
        deception: Float32,
        performance: Float32,
    ) -> (stat: CharismaStat)
        ensures
            stat == (CharismaStat { intimidation, persuasion, deception, performance }),
    {
        CharismaStat { intimidation, persuasion, deception, performance }
    }

    /// The sum, field by field.
    pub open spec fn sum(self, rhs: CharismaStat) -> CharismaStat {
        CharismaStat {
            intimidation: self.intimidation.sum(rhs.intimidation),
            persuasion: self.persuasion.sum(rhs.persuasion),
            deception: self.deception.sum(rhs.deception),
            performance: self.performance.sum(rhs.performance),
        }
    }

    /// The block whose every field is zero.
    pub open spec fn zero() -> CharismaStat {
        CharismaStat {
            intimidation: Float32 { bits: 0 },
            persuasion: Float32 { bits: 0 },
            deception: Float32 { bits: 0 },
            performance: Float32 { bits: 0 },
        }
    }

    /// Whether a skill is a NaN.
    pub open spec fn has_nan(self) -> bool {
        ||| self.intimidation.is_nan()
        ||| self.persuasion.is_nan()
        ||| self.deception.is_nan()
        ||| self.performance.is_nan()
    }

    /// Equality of blocks: capacities are equal, and skills are equal as
    /// numbers are.
    pub open spec fn same(self, rhs: CharismaStat) -> bool {
        &&& self.intimidation.same_number(rhs.intimidation)
        &&& self.persuasion.same_number(rhs.persuasion)
        &&& self.deception.same_number(rhs.deception)
        &&& self.performance.same_number(rhs.performance)
    }

    /// Whether `holds` is true of every skill.
    pub open spec fn each_skill(self, holds: spec_fn(Float32) -> bool) -> bool {
        &&& holds(self.intimidation)
        &&& holds(self.persuasion)
        &&& holds(self.deception)
        &&& holds(self.performance)
    }
}

impl core::ops::Add for CharismaStat {
    type Output = CharismaStat;

    fn add(self, rhs: CharismaStat) -> (total: CharismaStat) {
        CharismaStat {
            intimidation: self.intimidation + rhs.intimidation,
            persuasion: self.persuasion + rhs.persuasion,
            deception: self.deception + rhs.deception,
            performance: self.performance + rhs.performance,
        }
    }
}

impl AddSpecImpl for CharismaStat {
    open spec fn obeys_add_spec() -> bool {
        true
    }

    open spec fn add_req(self, rhs: CharismaStat) -> bool {
        true
    }

    open spec fn add_spec(self, rhs: CharismaStat) -> CharismaStat {
        self.sum(rhs)
    }
}

/// How an actor learns and remembers.
#[derive(PartialEq, Clone, Copy, Debug)]
pub struct IntelligenceStat {
    pub sensorary_memory: Float32,
    pub text_memory: Float32,
    pub learning: Float32,
    pub application: Float32,
    pub creativity: Float32,
}

impl IntelligenceStat {
    pub fn new(
        sensorary_memory: Float32,
        text_memory: Float32,
        learning: Float32,
        application: Float32,
        creativity: Float32,
    ) -> (stat: IntelligenceStat)
        ensures
            stat == (IntelligenceStat {
                sensorary_memory,
                text_memory,
                learning,
                application,
                creativity,
            }),
    {
        IntelligenceStat { sensorary_memory, text_memory, learning, application, creativity }
    }

    /// The sum, field by field.
    pub open spec fn sum(self, rhs: IntelligenceStat) -> IntelligenceStat {
        IntelligenceStat {
            sensorary_memory: self.sensorary_memory.sum(rhs.sensorary_memory),
            text_memory: self.text_memory.sum(rhs.text_memory),
            learning: self.learning.sum(rhs.learning),
            application: self.application.sum(rhs.application),
            creativity: self.creativity.sum(rhs.creativity),
        }
    }

    /// The block whose every field is zero.
    pub open spec fn zero() -> IntelligenceStat {
        IntelligenceStat {
            sensorary_memory: Float32 { bits: 0 },
            text_memory: Float32 { bits: 0 },
            learning: Float32 { bits: 0 },
            application: Float32 { bits: 0 },
            creativity: Float32 { bits: 0 },
        }
    }

    /// Whether a skill is a NaN.
    pub open spec fn has_nan(self) -> bool {
        ||| self.sensorary_memory.is_nan()
        ||| self.text_memory.is_nan()
        ||| self.learning.is_nan()
        ||| self.application.is_nan()
        ||| self.creativity.is_nan()
    }

    /// Equality of blocks: capacities are equal, and skills are equal as
    /// numbers are.
    pub open spec fn same(self, rhs: IntelligenceStat) -> bool {
        &&& self.sensorary_memory.same_number(rhs.sensorary_memory)
        &&& self.text_memory.same_number(rhs.text_memory)
        &&& self.learning.same_number(rhs.learning)
        &&& self.application.same_number(rhs.application)
        &&& self.creativity.same_number(rhs.creativity)
    }

    /// Whether `holds` is true of every skill.
    pub open spec fn each_skill(self, holds: spec_fn(Float32) -> bool) -> bool {
        &&& holds(self.sensorary_memory)
        &&& holds(self.text_memory)
        &&& holds(self.learning)
        &&& holds(self.application)
        &&& holds(self.creativity)
    }
}

impl core::ops::Add for IntelligenceStat {
    type Output = IntelligenceStat;

    fn add(self, rhs: IntelligenceStat) -> (total: IntelligenceStat) {
        IntelligenceStat {
            sensorary_memory: self.sensorary_memory + rhs.sensorary_memory,
            text_memory: self.text_memory + rhs.text_memory,
            learning: self.learning + rhs.learning,
            application: self.application + rhs.application,
            creativity: self.creativity + rhs.creativity,
        }
    }
}

impl AddSpecImpl for IntelligenceStat {
    open spec fn obeys_add_spec() -> bool {
        true
    }

    open spec fn add_req(self, rhs: IntelligenceStat) -> bool {
        true
    }

    open spec fn add_spec(self, rhs: IntelligenceStat) -> IntelligenceStat {
        self.sum(rhs)
    }
}

/// How an actor moves.
#[derive(PartialEq, Clone, Copy, Debug)]
pub struct AgilityStat {
    pub max_sprint_speed: u32,
    pub climbing: Float32,
    pub riding: Float32,
    pub swimming: Float32,
    pub parkour: Float32,
    pub stealth: Float32,
    pub acrobatics: Float32,
    pub pickpocting: Float32,
}

impl AgilityStat {
    pub fn new(
        max_sprint_speed: u32,
        climbing: Float32,
        riding: Float32,
        swimming: Float32,
        parkour: Float32,
        stealth: Float32,
        acrobatics: Float32,
        pickpocting: Float32,
    ) -> (stat: AgilityStat)
        ensures
            stat == (AgilityStat {
                max_sprint_speed,
                climbing,
                riding,
                swimming,
                parkour,
                stealth,
                acrobatics,
                pickpocting,
            }),
    {
        AgilityStat {
            max_sprint_speed,
            climbing,
            riding,
            swimming,
            parkour,
            stealth,
            acrobatics,
            pickpocting,
        }
    }

    /// Whether every sum of two capacities fits in thirty-two bits.
    pub open spec fn fits(self, rhs: AgilityStat) -> bool {
        &&& self.max_sprint_speed + rhs.max_sprint_speed <= u32::MAX
    }

    /// The sum, field by field.
    pub open spec fn sum(self, rhs: AgilityStat) -> AgilityStat {
        AgilityStat {
            max_sprint_speed: (self.max_sprint_speed + rhs.max_sprint_speed) as u32,
            climbing: self.climbing.sum(rhs.climbing),
            riding: self.riding.sum(rhs.riding),
            swimming: self.swimming.sum(rhs.swimming),
            parkour: self.parkour.sum(rhs.parkour),
            stealth: self.stealth.sum(rhs.stealth),
            acrobatics: self.acrobatics.sum(rhs.acrobatics),
            pickpocting: self.pickpocting.sum(rhs.pickpocting),
        }
    }

    /// The block whose every field is zero.
    pub open spec fn zero() -> AgilityStat {
        AgilityStat {
            max_sprint_speed: 0,
            climbing: Float32 { bits: 0 },
            riding: Float32 { bits: 0 },
            swimming: Float32 { bits: 0 },
            parkour: Float32 { bits: 0 },
            stealth: Float32 { bits: 0 },
            acrobatics: Float32 { bits: 0 },
            pickpocting: Float32 { bits: 0 },
        }
    }

    /// Whether a skill is a NaN.
    pub open spec fn has_nan(self) -> bool {
        ||| self.climbing.is_nan()
        ||| self.riding.is_nan()
        ||| self.swimming.is_nan()
        ||| self.parkour.is_nan()
        ||| self.stealth.is_nan()
        ||| self.acrobatics.is_nan()
        ||| self.pickpocting.is_nan()
    }

    /// Equality of blocks: capacities are equal, and skills are equal as
    /// numbers are.
    pub open spec fn same(self, rhs: AgilityStat) -> bool {
        &&& self.max_sprint_speed == rhs.max_sprint_speed
        &&& self.climbing.same_number(rhs.climbing)
        &&& self.riding.same_number(rhs.riding)
        &&& self.swimming.same_number(rhs.swimming)
        &&& self.parkour.same_number(rhs.parkour)
        &&& self.stealth.same_number(rhs.stealth)
        &&& self.acrobatics.same_number(rhs.acrobatics)
        &&& self.pickpocting.same_number(rhs.pickpocting)
    }

    /// Whether every capacity lies between `low` and `high`.
    pub open spec fn capacities_within(self, low: u32, high: u32) -> bool {
        &&& low <= self.max_sprint_speed <= high
    }

    /// Whether `holds` is true of every skill.
    pub open spec fn each_skill(self, holds: spec_fn(Float32) -> bool) -> bool {
        &&& holds(self.climbing)
        &&& holds(self.riding)
        &&& holds(self.swimming)
        &&& holds(self.parkour)
        &&& holds(self.stealth)
        &&& holds(self.acrobatics)
        &&& holds(self.pickpocting)
    }
}

impl core::ops::Add for AgilityStat {
    type Output = AgilityStat;

    fn add(self, rhs: AgilityStat) -> (total: AgilityStat) {
        AgilityStat {
            max_sprint_speed: self.max_sprint_speed + rhs.max_sprint_speed,
            climbing: self.climbing + rhs.climbing,
            riding: self.riding + rhs.riding,
            swimming: self.swimming + rhs.swimming,
            parkour: self.parkour + rhs.parkour,
            stealth: self.stealth + rhs.stealth,
            acrobatics: self.acrobatics + rhs.acrobatics,
            pickpocting: self.pickpocting + rhs.pickpocting,
        }
    }
}

impl AddSpecImpl for AgilityStat {
    open spec fn obeys_add_spec() -> bool {
        true
    }

    open spec fn add_req(self, rhs: AgilityStat) -> bool {
        self.fits(rhs)
    }

    open spec fn add_spec(self, rhs: AgilityStat) -> AgilityStat {
        self.sum(rhs)
    }
}

/// The statistics of an actor, and equally the bonus or malus that an object
/// or a status brings.
#[derive(PartialEq, Clone, Copy, Debug)]
pub struct Stats {
    pub strength: StrengthStat,
    pub perception: PerceptionStat,
    pub endurance: EnduranceStat,
    pub charisma: CharismaStat,
    pub intelligence: IntelligenceStat,
    pub agility: AgilityStat,
}

impl Stats {
    pub fn new(
        strength: StrengthStat,
        perception: PerceptionStat,
        endurance: EnduranceStat,
        charisma: CharismaStat,
        intelligence: IntelligenceStat,
        agility: AgilityStat,
    ) -> (stats: Stats)
        ensures
            stats == (Stats { strength, perception, endurance, charisma, intelligence, agility }),
    {
        Stats { strength, perception, endurance, charisma, intelligence, agility }
    }

    /// Whether every sum of two capacities fits in thirty-two bits.
    pub open spec fn fits(self, rhs: Stats) -> bool {
        &&& self.strength.fits(rhs.strength)
        &&& self.endurance.fits(rhs.endurance)
        &&& self.agility.fits(rhs.agility)
    }

    /// The sum, block by block and field by field.
    pub open spec fn sum(self, rhs: Stats) -> Stats {
        Stats {
            strength: self.strength.sum(rhs.strength),
            perception: self.perception.sum(rhs.perception),
            endurance: self.endurance.sum(rhs.endurance),
            charisma: self.charisma.sum(rhs.charisma),
            intelligence: self.intelligence.sum(rhs.intelligence),
            agility: self.agility.sum(rhs.agility),
        }
    }

    /// The statistics whose every field is zero.
    pub open spec fn zero() -> Stats {
        Stats {
            strength: StrengthStat::zero(),
            perception: PerceptionStat::zero(),
            endurance: EnduranceStat::zero(),
            charisma: CharismaStat::zero(),
            intelligence: IntelligenceStat::zero(),
            agility: AgilityStat::zero(),
        }
    }

    /// Whether a skill is a NaN.
    pub open spec fn has_nan(self) -> bool {
        ||| self.perception.has_nan()
        ||| self.endurance.has_nan()
        ||| self.charisma.has_nan()
        ||| self.intelligence.has_nan()
        ||| self.agility.has_nan()
    }

    /// Equality of statistics: capacities are equal, and skills are equal as
    /// numbers are.
    pub open spec fn same(self, rhs: Stats) -> bool {
        &&& self.strength.same(rhs.strength)
        &&& self.perception.same(rhs.perception)
        &&& self.endurance.same(rhs.endurance)
        &&& self.charisma.same(rhs.charisma)
        &&& self.intelligence.same(rhs.intelligence)
        &&& self.agility.same(rhs.agility)
    }

    /// Whether every capacity lies between `low` and `high`.
    pub open spec fn capacities_within(self, low: u32, high: u32) -> bool {
        &&& self.strength.capacities_within(low, high)
        &&& self.endurance.capacities_within(low, high)
        &&& self.agility.capacities_within(low, high)
    }

    /// The six capacities, in the order of the blocks.
    pub open spec fn capacities(self) -> Seq<int> {
        seq![
            self.strength.max_carry_weight as int,
            self.strength.base_melee_force as int,
            self.endurance.stamina as int,
            self.endurance.base_stamina_used_for_movement as int,
            self.endurance.base_stamina_used_for_fighting as int,
            self.agility.max_sprint_speed as int,
        ]
    }

    /// The sum where every sum of two capacities fits in thirty-two bits,
    /// and nothing where one does not.
    pub fn checked_add(self, rhs: Stats) -> (total: Option<Stats>)
        ensures
            total is Some <==> self.fits(rhs),
            total matches Some(sum) ==> sum == self.sum(rhs),
    {
        if fits_u32(self.strength.max_carry_weight, rhs.strength.max_carry_weight) && fits_u32(
            self.strength.base_melee_force,
            rhs.strength.base_melee_force,
        ) && fits_u32(self.endurance.stamina, rhs.endurance.stamina) && fits_u32(
            self.endurance.base_stamina_used_for_movement,
            rhs.endurance.base_stamina_used_for_movement,
        ) && fits_u32(
            self.endurance.base_stamina_used_for_fighting,
            rhs.endurance.base_stamina_used_for_fighting,
        ) && fits_u32(self.agility.max_sprint_speed, rhs.agility.max_sprint_speed) {
            Some(self + rhs)
        } else {
            None
        }
    }

    /// The neutral statistics: adding them changes nothing.
    pub fn new_zero() -> (stats: Stats)
        ensures
            stats == Stats::zero(),
    {
        let none = Float32::zero();
        Stats::new(
            StrengthStat::new(0, 0),
            PerceptionStat::new(none, none, none, none, none),
            EnduranceStat::new(0, 0, 0, none),
            CharismaStat::new(none, none, none, none),
            IntelligenceStat::new(none, none, none, none, none),
            AgilityStat::new(0, none, none, none, none, none, none, none),
        )
    }

    /// Statistics for procedural content: every capacity is drawn from 1 to
    /// 10, and every skill is what `draw_skill` gives for the bounds 0.0 and
    /// 1.0 (for the health regeneration: 0.001 and 0.005). One draw is made
    /// per field, in the order of the fields.
    pub fn new_random<F: Fn(Float32, Float32) -> Float32>(draw_skill: F) -> (stats: Stats)
        requires
            call_requires(draw_skill, (Float32 { bits: 0 }, Float32 { bits: ONE_BITS })),
            call_requires(
                draw_skill,
                (Float32 { bits: REGEN_LOW_BITS }, Float32 { bits: REGEN_HIGH_BITS }),
            ),
        ensures
            stats.capacities_within(CAPACITY_LOW, CAPACITY_HIGH),
            stats.perception.each_skill(
                |skill: Float32|
                    call_ensures(
                        draw_skill,
                        (Float32 { bits: 0 }, Float32 { bits: ONE_BITS }),
                        skill,
                    ),
            ),
            stats.endurance.each_skill(
                |skill: Float32|
                    call_ensures(
                        draw_skill,
                        (Float32 { bits: REGEN_LOW_BITS }, Float32 { bits: REGEN_HIGH_BITS }),
                        skill,
                    ),
            ),
            stats.charisma.each_skill(
                |skill: Float32|
                    call_ensures(
                        draw_skill,
                        (Float32 { bits: 0 }, Float32 { bits: ONE_BITS }),
                        skill,
                    ),
            ),
            stats.intelligence.each_skill(
                |skill: Float32|
                    call_ensures(
                        draw_skill,
                        (Float32 { bits: 0 }, Float32 { bits: ONE_BITS }),
                        skill,
                    ),
            ),
            stats.agility.each_skill(
                |skill: Float32|
                    call_ensures(
                        draw_skill,
                        (Float32 { bits: 0 }, Float32 { bits: ONE_BITS }),
                        skill,
                    ),
            ),
    {
        let none = Float32::zero();
        let full = Float32::one();
        let regen_low = Float32::from_bits(REGEN_LOW_BITS);
        let regen_high = Float32::from_bits(REGEN_HIGH_BITS);

        let strength = StrengthStat::new(
            draw_capacity(CAPACITY_LOW, CAPACITY_HIGH),
            draw_capacity(CAPACITY_LOW, CAPACITY_HIGH),
        );

        let perception = PerceptionStat::new(
            draw_skill(none, full),
            draw_skill(none, full),
            draw_skill(none, full),
            draw_skill(none, full),
            draw_skill(none, full),
        );

        let endurance = EnduranceStat::new(
            draw_capacity(CAPACITY_LOW, CAPACITY_HIGH),
            draw_capacity(CAPACITY_LOW, CAPACITY_HIGH),
            draw_capacity(CAPACITY_LOW, CAPACITY_HIGH),
            draw_skill(regen_low, regen_high),
        );

        let charisma = CharismaStat::new(
            draw_skill(none, full),
            draw_skill(none, full),
            draw_skill(none, full),
            draw_skill(none, full),
        );

        let intelligence = IntelligenceStat::new(
            draw_skill(none, full),
            draw_skill(none, full),
            draw_skill(none, full),
            draw_skill(none, full),
            draw_skill(none, full),
        );

        let agility = AgilityStat::new(
            draw_capacity(CAPACITY_LOW, CAPACITY_HIGH),
            draw_skill(none, full),
            draw_skill(none, full),
            draw_skill(none, full),
            draw_skill(none, full),
            draw_skill(none, full),
            draw_skill(none, full),
            draw_skill(none, full),
        );

        Stats::new(strength, perception, endurance, charisma, intelligence, agility)
    }
}

impl core::ops::Add for Stats {
    type Output = Stats;

    fn add(self, rhs: Stats) -> (total: Stats) {
        Stats {
            strength: self.strength + rhs.strength,
            perception: self.perception + rhs.perception,
            endurance: self.endurance + rhs.endurance,
            charisma: self.charisma + rhs.charisma,
            intelligence: self.intelligence + rhs.intelligence,
            agility: self.agility + rhs.agility,
        }
    }
}

impl AddSpecImpl for Stats {
    open spec fn obeys_add_spec() -> bool {
        true
    }

    open spec fn add_req(self, rhs: Stats) -> bool {
        self.fits(rhs)
    }

    open spec fn add_spec(self, rhs: Stats) -> Stats {
        self.sum(rhs)
    }
}

/// Whether `a + b` fits in thirty-two bits.
fn fits_u32(a: u32, b: u32) -> (fits: bool)
    ensures
        fits == (a + b <= u32::MAX),
{
    a <= u32::MAX - b
}

/// Draws a whole number with `rand::thread_rng().gen_range(low..=high)`.
///
/// `gen_range` panics on an empty range, which `low <= high` leaves out, and
/// returns `low` plus an offset below the width of the range: a number from
/// `low` to `high`, both included. Which one is a matter of chance, and that
/// much is all that is claimed here, without proof. (The thread's generator
/// seeds itself from the operating system when it is first used, and panics
/// if it cannot: nothing that is handed in here decides that.)
#[verifier::external_body]
fn draw_capacity(low: u32, high: u32) -> (n: u32)
    requires
        low <= high,
    ensures
        low <= n <= high,
{
    rand::thread_rng().gen_range(low..=high)
}

/// Addition of statistics does not depend on the order of its terms.
pub proof fn lemma_stats_sum_commutes(a: Stats, b: Stats)
    ensures
        a.fits(b) == b.fits(a),
        a.sum(b) == b.sum(a),
{
    lemma_sum_commutes(a.perception.vision, b.perception.vision);
    lemma_sum_commutes(a.perception.hearing, b.perception.hearing);
    lemma_sum_commutes(a.perception.smell, b.perception.smell);
    lemma_sum_commutes(a.perception.taste, b.perception.taste);
    lemma_sum_commutes(a.perception.night_vision_modifier, b.perception.night_vision_modifier);
    lemma_sum_commutes(a.endurance.health_regen, b.endurance.health_regen);
    lemma_sum_commutes(a.charisma.intimidation, b.charisma.intimidation);
    lemma_sum_commutes(a.charisma.persuasion, b.charisma.persuasion);
    lemma_sum_commutes(a.charisma.deception, b.charisma.deception);
    lemma_sum_commutes(a.charisma.performance, b.charisma.performance);
    lemma_sum_commutes(a.intelligence.sensorary_memory, b.intelligence.sensorary_memory);
    lemma_sum_commutes(a.intelligence.text_memory, b.intelligence.text_memory);
    lemma_sum_commutes(a.intelligence.learning, b.intelligence.learning);
    lemma_sum_commutes(a.intelligence.application, b.intelligence.application);
    lemma_sum_commutes(a.intelligence.creativity, b.intelligence.creativity);
    lemma_sum_commutes(a.agility.climbing, b.agility.climbing);
    lemma_sum_commutes(a.agility.riding, b.agility.riding);
    lemma_sum_commutes(a.agility.swimming, b.agility.swimming);
    lemma_sum_commutes(a.agility.parkour, b.agility.parkour);
    lemma_sum_commutes(a.agility.stealth, b.agility.stealth);
    lemma_sum_commutes(a.agility.acrobatics, b.agility.acrobatics);
    lemma_sum_commutes(a.agility.pickpocting, b.agility.pickpocting);
}

/// Adding the zero statistics changes nothing: the sum always fits, and it
/// equals the other term, as long as that holds no NaN (a NaN equals
/// nothing, itself included).
pub proof fn lemma_stats_sum_with_zero(a: Stats)
    requires
        !a.has_nan(),
    ensures
        a.fits(Stats::zero()),
        a.sum(Stats::zero()).same(a),
{
    let zero = Float32 { bits: 0 };
    lemma_sum_with_zero(a.perception.vision, zero);
    lemma_sum_with_zero(a.perception.hearing, zero);
    lemma_sum_with_zero(a.perception.smell, zero);
    lemma_sum_with_zero(a.perception.taste, zero);
    lemma_sum_with_zero(a.perception.night_vision_modifier, zero);
    lemma_sum_with_zero(a.endurance.health_regen, zero);
    lemma_sum_with_zero(a.charisma.intimidation, zero);
    lemma_sum_with_zero(a.charisma.persuasion, zero);
    lemma_sum_with_zero(a.charisma.deception, zero);
    lemma_sum_with_zero(a.charisma.performance, zero);
    lemma_sum_with_zero(a.intelligence.sensorary_memory, zero);
    lemma_sum_with_zero(a.intelligence.text_memory, zero);
    lemma_sum_with_zero(a.intelligence.learning, zero);
    lemma_sum_with_zero(a.intelligence.application, zero);
    lemma_sum_with_zero(a.intelligence.creativity, zero);
    lemma_sum_with_zero(a.agility.climbing, zero);
    lemma_sum_with_zero(a.agility.riding, zero);
    lemma_sum_with_zero(a.agility.swimming, zero);
    lemma_sum_with_zero(a.agility.parkour, zero);
    lemma_sum_with_zero(a.agility.stealth, zero);
    lemma_sum_with_zero(a.agility.acrobatics, zero);
    lemma_sum_with_zero(a.agility.pickpocting, zero);
}

/// Addition of capacities is associative: where all the sums fit, the
/// capacities of `(a + b) + c` are those of `a + (b + c)`.
pub proof fn lemma_capacities_sum_associates(a: Stats, b: Stats, c: Stats)
    requires
        a.fits(b),
        a.sum(b).fits(c),
    ensures
        b.fits(c),
        a.fits(b.sum(c)),
        a.sum(b).sum(c).capacities() == a.sum(b.sum(c)).capacities(),
        a.sum(b).sum(c).strength == a.sum(b.sum(c)).strength,
{
    let left = a.sum(b).sum(c);
    let right = a.sum(b.sum(c));
    assert(left.strength.max_carry_weight == right.strength.max_carry_weight);
    assert(left.strength.base_melee_force == right.strength.base_melee_force);
    assert(left.endurance.stamina == right.endurance.stamina);
    assert(left.endurance.base_stamina_used_for_movement
        == right.endurance.base_stamina_used_for_movement);
    assert(left.endurance.base_stamina_used_for_fighting
        == right.endurance.base_stamina_used_for_fighting);
    assert(left.agility.max_sprint_speed == right.agility.max_sprint_speed);
    assert(left.capacities() =~= right.capacities());
}

} // verus!
