use vstd::prelude::*;

use crate::ability::{Ability, Check};
use crate::creature::Creature;
use crate::identity::Identity;

verus! {

/// Something a creature can be proficient in: checks for a metric, or saves
/// for an ability.
#[derive(Clone, Copy, Debug, PartialEq, Eq, Structural)]
pub enum Proficiency {
    Checks(Check),
    Saves(Ability),
}

impl Identity for Proficiency {
    /// The identity of the category.
    fn id(&self) -> &'static str {
        match self {
            Proficiency::Checks(_) => "5E::PROFICIENCY::CHECKS",
            Proficiency::Saves(_) => "5E::PROFICIENCY::SAVES",
        }
    }
}

/// How a proficiency scales the base proficiency bonus.
#[derive(Clone, Copy, Debug, PartialEq, Eq, Structural)]
pub enum ProficiencyType {
    /// The bonus as it is.
    Full,
    /// Half the bonus, rounded down.
    Half,
    /// Twice the bonus.
    Expertise,
}

impl ProficiencyType {
    /// The bonus this type gives for a base bonus `bonus`.
    pub open spec fn spec_bonus(self, bonus: int) -> int {
        match self {
            ProficiencyType::Full => bonus,
            ProficiencyType::Half => bonus / 2,
            ProficiencyType::Expertise => bonus * 2,
        }
    }

    /// Scales the base proficiency bonus: unchanged, halved rounding down
    /// (-3 gives -2), or doubled.
    pub fn bonus(&self, ent: &Creature, bonus: i32) -> (r: i32)
        requires
            i32::MIN / 2 <= bonus <= i32::MAX / 2,
        ensures
            r == self.spec_bonus(bonus as int),
    {
        match self {
            ProficiencyType::Full => bonus,
            ProficiencyType::Half => match bonus.checked_div_euclid(2) {
                Some(q) => q,
                None => 0,
            },
            ProficiencyType::Expertise => bonus * 2,
        }
    }
}

impl Identity for ProficiencyType {
    fn id(&self) -> &'static str {
        match self {
            ProficiencyType::Full => "5E::PROFICIENCY_TYPE::FULL",
            ProficiencyType::Half => "5E::PROFICIENCY_TYPE::HALF",
            ProficiencyType::Expertise => "5E::PROFICIENCY_TYPE::EXPERTISE",
        }
    }
}

/// A creature's proficiencies, each bound to how it scales the bonus.
#[derive(Debug)]
pub struct Proficiencies {
    entries: Vec<(Proficiency, ProficiencyType)>,
}

/// Whether some entry is for `prof`.
pub open spec fn listed(entries: Seq<(Proficiency, ProficiencyType)>, prof: Proficiency) -> bool {
    exists|i: int| 0 <= i < entries.len() && #[trigger] entries[i].0 == prof
}

/// The position of the entry for `prof`.
pub open spec fn entry_index(entries: Seq<(Proficiency, ProficiencyType)>, prof: Proficiency) -> int {
    choose|i: int| 0 <= i < entries.len() && #[trigger] entries[i].0 == prof
}

/// No proficiency is listed twice.
pub open spec fn unique_entries(entries: Seq<(Proficiency, ProficiencyType)>) -> bool {
    forall|i: int, j: int|
        0 <= i < entries.len() && 0 <= j < entries.len() && i != j ==> #[trigger] entries[i].0
            != #[trigger] entries[j].0
}

/// The map that a list of entries with unique keys stands for.
pub open spec fn entries_map(entries: Seq<(Proficiency, ProficiencyType)>) -> Map<
    Proficiency,
    ProficiencyType,
> {
    Map::new(|p: Proficiency| listed(entries, p), |p: Proficiency| entries[entry_index(entries, p)].1)
}

proof fn lemma_entry_index(entries: Seq<(Proficiency, ProficiencyType)>, prof: Proficiency, i: int)
    requires
        unique_entries(entries),
        0 <= i < entries.len(),
        entries[i].0 == prof,
    ensures
        listed(entries, prof),
        entry_index(entries, prof) == i,
{
    assert(listed(entries, prof));
}

impl View for Proficiencies {
    type V = Map<Proficiency, ProficiencyType>;

    closed spec fn view(&self) -> Map<Proficiency, ProficiencyType> {
        entries_map(self.entries@)
    }
}

impl Proficiencies {
    pub closed spec fn wf(&self) -> bool {
        unique_entries(self.entries@)
    }

    /// No proficiencies.
    pub fn new() -> (r: Proficiencies)
        ensures
            r.wf(),
            r@ == Map::<Proficiency, ProficiencyType>::empty(),
    {
        let r = Proficiencies { entries: Vec::new() };
        assert(r@ =~= Map::<Proficiency, ProficiencyType>::empty());
        r
    }

    fn position(&self, prof: Proficiency) -> (r: Option<usize>)
        requires
            self.wf(),
        ensures
            r matches Some(i) ==> i < self.entries.len() && self.entries@[i as int].0 == prof,
            r is None ==> !listed(self.entries@, prof),
    {
        let mut i: usize = 0;
        while i < self.entries.len()
            invariant
                i <= self.entries.len(),
                forall|j: int| 0 <= j < i ==> #[trigger] self.entries@[j].0 != prof,
            decreases self.entries.len() - i,
        {
            if self.entries[i].0 == prof {
                return Some(i);
            }
            i = i + 1;
        }
        None
    }

    /// Binds `prof` to `kind`, replacing any earlier binding.
    pub fn insert(&mut self, prof: Proficiency, kind: ProficiencyType)
        requires
            old(self).wf(),
        ensures
            final(self).wf(),
            final(self)@ == old(self)@.insert(prof, kind),
    {
        let ghost before = self.entries@;
        match self.position(prof) {
            Some(i) => {
                proof {
                    lemma_entry_index(before, prof, i as int);
                }
                self.entries.set(i, (prof, kind));
                let ghost after = self.entries@;
                assert(after =~= before.update(i as int, (prof, kind)));
                assert(unique_entries(after)) by {
                    assert forall|a: int, b: int|
                        0 <= a < after.len() && 0 <= b < after.len() && a != b implies #[trigger] after[a].0
                        != #[trigger] after[b].0 by {
                        assert(before[a].0 != before[b].0);
                    }
                }
                assert forall|p: Proficiency| p != prof implies (#[trigger] listed(after, p) <==> listed(before, p)) by {
                    if listed(before, p) {
                        let k = entry_index(before, p);
                        assert(after[k].0 == p);
                    }
                    if listed(after, p) {
                        let k = entry_index(after, p);
                        assert(before[k].0 == p);
                    }
                }
                assert forall|p: Proficiency| #[trigger] listed(before, p) && p != prof implies entry_index(after, p) == entry_index(before, p) by {
                    let k = entry_index(before, p);
                    lemma_entry_index(before, p, k);
                    lemma_entry_index(after, p, k);
                }
                proof {
                    lemma_entry_index(after, prof, i as int);
                }
                assert(self@ =~= old(self)@.insert(prof, kind));
            },
            None => {
                self.entries.push((prof, kind));
                let ghost after = self.entries@;
                assert(unique_entries(after)) by {
                    assert forall|a: int, b: int|
                        0 <= a < after.len() && 0 <= b < after.len() && a != b implies #[trigger] after[a].0
                        != #[trigger] after[b].0 by {
                        if a < before.len() && b < before.len() {
                            assert(before[a].0 != before[b].0);
                        } else if a < before.len() {
                            assert(before[a].0 != prof);
                        } else {
                            assert(before[b].0 != prof);
                        }
                    }
                }
                assert forall|p: Proficiency| p != prof implies (#[trigger] listed(after, p) <==> listed(before, p)) by {
                    if listed(before, p) {
                        let k = entry_index(before, p);
                        assert(after[k].0 == p);
                    }
                    if listed(after, p) {
                        let k = entry_index(after, p);
                        assert(before[k].0 == p);
                    }
                }
                assert forall|p: Proficiency| #[trigger] listed(before, p) implies entry_index(after, p) == entry_index(before, p) by {
                    let k = entry_index(before, p);
                    lemma_entry_index(before, p, k);
                    lemma_entry_index(after, p, k);
                }
                proof {
                    lemma_entry_index(after, prof, before.len() as int);
                }
                assert(self@ =~= old(self)@.insert(prof, kind));
            },
        }
    }

    /// How `prof` scales the bonus; `None` when the creature is not proficient.
    pub fn has(&self, prof: Proficiency) -> (r: Option<ProficiencyType>)
        requires
            self.wf(),
        ensures
            r == (if self@.contains_key(prof) {
                Some(self@[prof])
            } else {
                None
            }),
    {
        match self.position(prof) {
            Some(i) => {
                proof {
                    lemma_entry_index(self.entries@, prof, i as int);
                }
                Some(self.entries[i].1)
            },
            None => None,
        }
    }
}

impl Default for Proficiencies {
    fn default() -> (r: Proficiencies)
        ensures
            r.wf(),
            r@ == Map::<Proficiency, ProficiencyType>::empty(),
    {
        Proficiencies::new()
    }
}

} // verus!
