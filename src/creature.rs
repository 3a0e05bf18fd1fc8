use vstd::prelude::*;

use crate::ability::{ability_modifier, check_base, modifier_for, Ability, Check};
use crate::die::{Die, D20};
use crate::error::RuleError;
use crate::modifier::{Arithmetic, Modifier, ModifierKind};
use crate::proficiency::{Proficiencies, Proficiency, ProficiencyType};
use crate::rolls::{fair_rolls, Rolls};

verus! {

/// The base proficiency bonus every creature has.
pub const BASE_PROFICIENCY_BONUS: i32 = 2;

/// Where an ability's score is kept.
pub open spec fn ability_slot(a: Ability) -> int {
    match a {
        Ability::Strength => 0,
        Ability::Dexterity => 1,
        Ability::Constitution => 2,
        Ability::Intelligence => 3,
        Ability::Wisdom => 4,
        Ability::Charisma => 5,
    }
}

fn slot(a: Ability) -> (r: usize)
    ensures
        r == ability_slot(a),
{
    match a {
        Ability::Strength => 0,
        Ability::Dexterity => 1,
        Ability::Constitution => 2,
        Ability::Intelligence => 3,
        Ability::Wisdom => 4,
        Ability::Charisma => 5,
    }
}

/// What a proficiency adds to a roll: its type's scaling of the base bonus,
/// or nothing when the creature is not proficient.
pub open spec fn proficiency_term(kind: Option<ProficiencyType>) -> int {
    match kind {
        Some(t) => t.spec_bonus(BASE_PROFICIENCY_BONUS as int),
        None => 0,
    }
}

/// A creature: its ability scores and its proficiencies.
#[derive(Debug)]
pub struct Creature {
    scores: Vec<Option<u32>>,
    proficiencies: Proficiencies,
}

impl Creature {
    pub closed spec fn wf(&self) -> bool {
        self.scores.len() == 6 && self.proficiencies.wf()
    }

    /// The creature's score in `a`, if it has one.
    pub closed spec fn score_of(&self, a: Ability) -> Option<u32> {
        self.scores@[ability_slot(a)]
    }

    /// The creature's proficiencies.
    pub closed spec fn proficiency_map(&self) -> Map<Proficiency, ProficiencyType> {
        self.proficiencies@
    }

    /// How the creature's proficiency in `prof` scales the bonus, if it has one.
    pub open spec fn proficiency_in(&self, prof: Proficiency) -> Option<ProficiencyType> {
        if self.proficiency_map().contains_key(prof) {
            Some(self.proficiency_map()[prof])
        } else {
            None
        }
    }

    /// What a check on `metric` adds to the d20: the base ability's modifier
    /// and the scaled proficiency bonus, when the score is there.
    pub open spec fn check_bonus(&self, metric: Check) -> int {
        modifier_for(self.score_of(check_base(metric))->Some_0 as int) + proficiency_term(
            self.proficiency_in(Proficiency::Checks(metric)),
        )
    }

    /// What a save in `ability` adds to the d20.
    pub open spec fn save_bonus(&self, ability: Ability) -> int {
        modifier_for(self.score_of(ability)->Some_0 as int) + proficiency_term(
            self.proficiency_in(Proficiency::Saves(ability)),
        )
    }

    /// A creature with no scores and no proficiencies.
    pub fn new() -> (r: Creature)
        ensures
            r.wf(),
            forall|a: Ability| r.score_of(a) is None,
            r.proficiency_map() == Map::<Proficiency, ProficiencyType>::empty(),
    {
        let mut scores: Vec<Option<u32>> = Vec::new();
        let mut i: usize = 0;
        while i < 6
            invariant
                i <= 6,
                scores.len() == i,
                forall|j: int| 0 <= j < i ==> scores@[j] is None,
            decreases 6 - i,
        {
            scores.push(None);
            i = i + 1;
        }
        Creature { scores, proficiencies: Proficiencies::new() }
    }

    /// Records the creature's score in `a`.
    pub fn set_score(&mut self, a: Ability, score: u32)
        requires
            old(self).wf(),
        ensures
            final(self).wf(),
            final(self).score_of(a) == Some(score),
            forall|b: Ability| b != a ==> final(self).score_of(b) == old(self).score_of(b),
            final(self).proficiency_map() == old(self).proficiency_map(),
    {
        let i = slot(a);
        self.scores.set(i, Some(score));
        assert forall|b: Ability| b != a implies final(self).score_of(b) == old(self).score_of(b) by {
            assert(ability_slot(b) != ability_slot(a));
        }
    }

    /// The creature's score in `a`, if it has one.
    pub fn score(&self, a: Ability) -> (r: Option<u32>)
        requires
            self.wf(),
        ensures
            r == self.score_of(a),
    {
        self.scores[slot(a)]
    }

    /// The modifier of the creature's score in `a`, if it has one.
    pub fn modifier(&self, a: Ability) -> (r: Option<i32>)
        requires
            self.wf(),
        ensures
            r is Some <==> self.score_of(a) is Some,
            r matches Some(m) ==> m == modifier_for(self.score_of(a)->Some_0 as int),
    {
        match self.score(a) {
            Some(s) => Some(ability_modifier(s)),
            None => None,
        }
    }

    /// The base proficiency bonus.
    pub fn proficiency_bonus(&self) -> (r: i32)
        ensures
            r == BASE_PROFICIENCY_BONUS,
    {
        BASE_PROFICIENCY_BONUS
    }

    /// Makes the creature proficient in `prof`, scaled by `kind`.
    pub fn add_proficiency(&mut self, prof: Proficiency, kind: ProficiencyType)
        requires
            old(self).wf(),
        ensures
            final(self).wf(),
            forall|a: Ability| final(self).score_of(a) == old(self).score_of(a),
            final(self).proficiency_map() == old(self).proficiency_map().insert(prof, kind),
    {
        self.proficiencies.insert(prof, kind);
    }

    /// How the creature's proficiency in `prof` scales the bonus; `None` when
    /// it is not proficient.
    pub fn proficient(&self, prof: Proficiency) -> (r: Option<ProficiencyType>)
        requires
            self.wf(),
        ensures
            r == self.proficiency_in(prof),
    {
        self.proficiencies.has(prof)
    }

    /// The creature's proficiencies.
    pub fn proficiencies(&self) -> (r: &Proficiencies)
        ensures
            r@ == self.proficiency_map(),
            self.wf() ==> r.wf(),
    {
        &self.proficiencies
    }

    /// The scaled proficiency bonus for `prof`, or 0 when not proficient.
    fn proficiency_value(&self, prof: Proficiency) -> (r: i32)
        requires
            self.wf(),
        ensures
            r == proficiency_term(self.proficiency_in(prof)),
            0 <= r <= 4,
    {
        match self.proficient(prof) {
            Some(kind) => kind.bonus(self, self.proficiency_bonus()),
            None => 0,
        }
    }

    /// A check on `metric` built on `base`, the d20 roll: one `Add` modifier
    /// carrying the base ability's modifier plus the scaled proficiency bonus.
    /// Fails when the creature has no score in the base ability.
    pub fn check_from(&self, metric: Check, base: Rolls) -> (r: Result<Rolls, RuleError>)
        requires
            self.wf(),
        ensures
            r is Ok <==> self.score_of(check_base(metric)) is Some,
            r matches Err(e) ==> e == RuleError::MissingAbilityScore(check_base(metric)),
            r matches Ok(rolls) ==> rolls@.groups == base@.groups && rolls@.chain
                == base@.chain.push(
                ModifierKind::Arithmetic(Arithmetic::Add(self.check_bonus(metric) as i32)),
            ),
            r matches Ok(rolls) ==> i32::MIN <= self.check_bonus(metric) <= i32::MAX,
    {
        let ability = metric.base();
        match self.modifier(ability) {
            Some(m) => {
                let p = self.proficiency_value(Proficiency::Checks(metric));
                Ok(base.attach(Modifier::add(m + p)))
            },
            None => Err(RuleError::MissingAbilityScore(ability)),
        }
    }

    /// A save in `ability` built on `base`, the d20 roll: one `Add` modifier
    /// carrying the ability's modifier plus the scaled proficiency bonus.
    /// Fails when the creature has no score in the ability.
    pub fn save_from(&self, ability: Ability, base: Rolls) -> (r: Result<Rolls, RuleError>)
        requires
            self.wf(),
        ensures
            r is Ok <==> self.score_of(ability) is Some,
            r matches Err(e) ==> e == RuleError::MissingAbilityScore(ability),
            r matches Ok(rolls) ==> rolls@.groups == base@.groups && rolls@.chain
                == base@.chain.push(
                ModifierKind::Arithmetic(Arithmetic::Add(self.save_bonus(ability) as i32)),
            ),
            r matches Ok(rolls) ==> i32::MIN <= self.save_bonus(ability) <= i32::MAX,
    {
        match self.modifier(ability) {
            Some(m) => {
                let p = self.proficiency_value(Proficiency::Saves(ability));
                Ok(base.attach(Modifier::add(m + p)))
            },
            None => Err(RuleError::MissingAbilityScore(ability)),
        }
    }

    /// Rolls a check on `metric`: a fresh d20 roll with the bonus of
    /// [`Creature::check_from`] attached. Fails when the creature has no score
    /// in the base ability.
    pub fn check(&self, metric: Check) -> (r: Result<Rolls, RuleError>)
        requires
            self.wf(),
        ensures
            r is Ok <==> self.score_of(check_base(metric)) is Some,
            r matches Err(e) ==> e == RuleError::MissingAbilityScore(check_base(metric)),
            r matches Ok(rolls) ==> {
                &&& rolls@.groups.len() == 1
                &&& rolls@.groups[0].0 == 20
                &&& fair_rolls(rolls@.groups[0].1, 20, 1)
                &&& rolls@.chain == seq![
                    ModifierKind::Arithmetic(Arithmetic::Add(self.check_bonus(metric) as i32)),
                ]
            },
    {
        let base = D20.roll(1);
        let r = self.check_from(metric, base);
        assert(r matches Ok(rolls) ==> rolls@.chain =~= seq![
            ModifierKind::Arithmetic(Arithmetic::Add(self.check_bonus(metric) as i32)),
        ]);
        r
    }

    /// Rolls a save in `ability`: a fresh d20 roll with the bonus of
    /// [`Creature::save_from`] attached. Fails when the creature has no score
    /// in the ability.
    pub fn save(&self, ability: Ability) -> (r: Result<Rolls, RuleError>)
        requires
            self.wf(),
        ensures
            r is Ok <==> self.score_of(ability) is Some,
            r matches Err(e) ==> e == RuleError::MissingAbilityScore(ability),
            r matches Ok(rolls) ==> {
                &&& rolls@.groups.len() == 1
                &&& rolls@.groups[0].0 == 20
                &&& fair_rolls(rolls@.groups[0].1, 20, 1)
                &&& rolls@.chain == seq![
                    ModifierKind::Arithmetic(Arithmetic::Add(self.save_bonus(ability) as i32)),
                ]
            },
    {
        let base = D20.roll(1);
        let r = self.save_from(ability, base);
        assert(r matches Ok(rolls) ==> rolls@.chain =~= seq![
            ModifierKind::Arithmetic(Arithmetic::Add(self.save_bonus(ability) as i32)),
        ]);
        r
    }
}

} // verus!
