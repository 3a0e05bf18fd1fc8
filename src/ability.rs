use vstd::prelude::*;

use crate::identity::Identity;
use crate::modifier::floor_div;

verus! {

/// The six abilities.
#[derive(Clone, Copy, Debug, PartialEq, Eq, Structural)]
pub enum Ability {
    Strength,
    Dexterity,
    Constitution,
    Intelligence,
    Wisdom,
    Charisma,
}

impl Identity for Ability {
    fn id(&self) -> &'static str {
        match self {
            Ability::Strength => "5E::ABILITY::STRENGTH",
            Ability::Dexterity => "5E::ABILITY::DEXTERITY",
            Ability::Constitution => "5E::ABILITY::CONSTITUTION",
            Ability::Intelligence => "5E::ABILITY::INTELLIGENCE",
            Ability::Wisdom => "5E::ABILITY::WISDOM",
            Ability::Charisma => "5E::ABILITY::CHARISMA",
        }
    }
}

/// The skills; each rests on one ability.
#[derive(Clone, Copy, Debug, PartialEq, Eq, Structural)]
pub enum Skill {
    Athletics,
    Acrobatics,
    SleightOfHand,
    Stealth,
    Arcana,
    History,
    Investigation,
    Nature,
    Religion,
    AnimalHandling,
    Insight,
    Medicine,
    Perception,
    Survival,
    Deception,
    Intimidation,
    Performance,
    Persuasion,
}

/// The ability a skill rests on.
pub open spec fn skill_base(skill: Skill) -> Ability {
    match skill {
        Skill::Athletics => Ability::Strength,
        Skill::Acrobatics | Skill::SleightOfHand | Skill::Stealth => Ability::Dexterity,
        Skill::Arcana | Skill::History | Skill::Investigation | Skill::Nature | Skill::Religion => Ability::Intelligence,
        Skill::AnimalHandling | Skill::Insight | Skill::Medicine | Skill::Perception | Skill::Survival => Ability::Wisdom,
        Skill::Deception | Skill::Intimidation | Skill::Performance | Skill::Persuasion => Ability::Charisma,
    }
}

impl Skill {
    /// The ability this skill rests on.
    pub fn base(&self) -> (r: Ability)
        ensures
            r == skill_base(*self),
    {
        match self {
            Skill::Athletics => Ability::Strength,
            Skill::Acrobatics | Skill::SleightOfHand | Skill::Stealth => Ability::Dexterity,
            Skill::Arcana | Skill::History | Skill::Investigation | Skill::Nature | Skill::Religion => Ability::Intelligence,
            Skill::AnimalHandling | Skill::Insight | Skill::Medicine | Skill::Perception | Skill::Survival => Ability::Wisdom,
            Skill::Deception | Skill::Intimidation | Skill::Performance | Skill::Persuasion => Ability::Charisma,
        }
    }
}

impl Identity for Skill {
    fn id(&self) -> &'static str {
        match self {
            Skill::Athletics => "5E::SKILL::ATHLETICS",
            Skill::Acrobatics => "5E::SKILL::ACROBATICS",
            Skill::SleightOfHand => "5E::SKILL::SLEIGHTOFHAND",
            Skill::Stealth => "5E::SKILL::STEALTH",
            Skill::Arcana => "5E::SKILL::ARCANA",
            Skill::History => "5E::SKILL::HISTORY",
            Skill::Investigation => "5E::SKILL::INVESTIGATION",
            Skill::Nature => "5E::SKILL::NATURE",
            Skill::Religion => "5E::SKILL::RELIGION",
            Skill::AnimalHandling => "5E::SKILL::ANIMALHANDLING",
            Skill::Insight => "5E::SKILL::INSIGHT",
            Skill::Medicine => "5E::SKILL::MEDICINE",
            Skill::Perception => "5E::SKILL::PERCEPTION",
            Skill::Survival => "5E::SKILL::SURVIVAL",
            Skill::Deception => "5E::SKILL::DECEPTION",
            Skill::Intimidation => "5E::SKILL::INTIMIDATION",
            Skill::Performance => "5E::SKILL::PERFORMANCE",
            Skill::Persuasion => "5E::SKILL::PERSUASION",
        }
    }
}

/// What a check can be asked for: an ability, or a skill.
#[derive(Clone, Copy, Debug, PartialEq, Eq, Structural)]
pub enum Check {
    Ability(Ability),
    Skill(Skill),
}

/// The ability a check rests on.
pub open spec fn check_base(check: Check) -> Ability {
    match check {
        Check::Ability(a) => a,
        Check::Skill(s) => skill_base(s),
    }
}

impl Check {
    /// The ability the check rests on: the ability itself, or the skill's.
    pub fn base(&self) -> (r: Ability)
        ensures
            r == check_base(*self),
    {
        match self {
            Check::Ability(a) => *a,
            Check::Skill(s) => s.base(),
        }
    }
}

impl Identity for Check {
    fn id(&self) -> &'static str {
        match self {
            Check::Ability(a) => a.id(),
            Check::Skill(s) => s.id(),
        }
    }
}

/// The modifier an ability score gives: `(score - 10) / 2`, rounded down.
pub open spec fn modifier_for(score: int) -> int {
    floor_div(score - 10, 2)
}

/// The modifier an ability score gives: `(score - 10) / 2`, rounded down,
/// so 7 gives -2.
pub fn ability_modifier(score: u32) -> (r: i32)
    ensures
        r == modifier_for(score as int),
{
    let shifted = score as i64 - 10;
    match shifted.checked_div_euclid(2) {
        Some(q) => q as i32,
        None => 0,
    }
}

} // verus!
