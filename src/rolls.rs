use vstd::prelude::*;

use crate::groups::{
    add_to, best_index, fits_i32, groups_magnitude, groups_sum, groups_view, has_group,
    lemma_add_to_unique, lemma_group_index, lemma_groups_magnitude_prefix, lemma_groups_sum_bounded,
    lemma_magnitude_prefix, lemma_merge_unique, lemma_narrow_magnitude, lemma_resolve_keeps,
    lemma_rolls_sum_bounded, lemma_unique_same_sides, magnitude, merge, narrow, narrow_rolls,
    resolve, rolls_for, rolls_sum, total_of, unique_sides, Group,
};
use crate::die::{sample_between, Die};
use crate::modifier::{Modifier, ModifierKind};
use crate::roll::{group_roll, Roll};

verus! {

broadcast use group_roll;

/// The sum of the visible values of `rolls`.
fn sum_rolls(rolls: &Vec<Roll>) -> (r: i32)
    requires
        magnitude(rolls@) <= i32::MAX,
    ensures
        r == rolls_sum(rolls@),
{
    let mut total: i32 = 0;
    let mut i: usize = 0;
    while i < rolls.len()
        invariant
            i <= rolls.len(),
            magnitude(rolls@) <= i32::MAX,
            total == rolls_sum(rolls@.take(i as int)),
        decreases rolls.len() - i,
    {
        proof {
            let next = rolls@.take(i + 1);
            assert(next.drop_last() =~= rolls@.take(i as int));
            lemma_rolls_sum_bounded(next);
            lemma_magnitude_prefix(rolls@, i + 1);
        }
        total = total + rolls[i].value();
        i = i + 1;
    }
    assert(rolls@.take(i as int) =~= rolls@);
    total
}

/// The sum of the visible values of every group.
fn sum_groups(groups: &Vec<(usize, Vec<Roll>)>) -> (r: i32)
    requires
        groups_magnitude(groups_view(groups@)) <= i32::MAX,
    ensures
        r == groups_sum(groups_view(groups@)),
{
    let ghost all = groups_view(groups@);
    let mut total: i32 = 0;
    let mut i: usize = 0;
    while i < groups.len()
        invariant
            i <= groups.len(),
            all == groups_view(groups@),
            groups_magnitude(all) <= i32::MAX,
            total == groups_sum(all.take(i as int)),
        decreases groups.len() - i,
    {
        proof {
            let next = all.take(i + 1);
            assert(next.drop_last() =~= all.take(i as int));
            lemma_groups_sum_bounded(next);
            lemma_groups_magnitude_prefix(all, i + 1);
            lemma_groups_magnitude_prefix(next, i as int);
            assert(next.drop_last() =~= next.take(i as int));
            lemma_rolls_sum_bounded(all[i as int].1);
            lemma_groups_sum_bounded(all.take(i as int));
        }
        let part = sum_rolls(&groups[i].1);
        total = total + part;
        i = i + 1;
    }
    assert(all.take(i as int) =~= all);
    total
}

/// The modifier chain as the kinds of its modifiers.
pub open spec fn chain_view(chain: Seq<Modifier>) -> Seq<ModifierKind> {
    chain.map_values(|m: Modifier| m@)
}

/// The position of the first best roll of a non-empty vector.
fn find_best(rolls: &Vec<Roll>, high: bool) -> (r: usize)
    requires
        rolls.len() > 0,
    ensures
        r == best_index(rolls@, high),
        r < rolls.len(),
{
    let mut best: usize = 0;
    let mut i: usize = 1;
    while i < rolls.len()
        invariant
            1 <= i <= rolls.len(),
            best < i,
            best == best_index(rolls@.take(i as int), high),
        decreases rolls.len() - i,
    {
        proof {
            assert(rolls@.take(i + 1).drop_last() =~= rolls@.take(i as int));
        }
        let better = if high {
            rolls[i].raw_value() > rolls[best].raw_value()
        } else {
            rolls[i].raw_value() < rolls[best].raw_value()
        };
        if better {
            best = i;
        }
        i = i + 1;
    }
    assert(rolls@.take(i as int) =~= rolls@);
    best
}

/// `rolls` with every roll hidden but the first best one, which is shown when `keep` holds.
fn narrow_group(rolls: &Vec<Roll>, keep: bool, high: bool) -> (r: Vec<Roll>)
    ensures
        r@ == narrow_rolls(rolls@, keep, high),
{
    let best = if rolls.len() > 0 {
        find_best(rolls, high)
    } else {
        0
    };
    let ghost target = narrow_rolls(rolls@, keep, high);
    let mut out: Vec<Roll> = Vec::new();
    let mut j: usize = 0;
    while j < rolls.len()
        invariant
            j <= rolls.len(),
            target == narrow_rolls(rolls@, keep, high),
            rolls.len() > 0 ==> best == best_index(rolls@, high),
            out@ =~= target.take(j as int),
        decreases rolls.len() - j,
    {
        let mut roll = rolls[j];
        if keep && j == best {
            roll.show();
        } else {
            roll.conceal();
        }
        out.push(roll);
        j = j + 1;
    }
    out
}

/// Advantage (`high`) or disadvantage on dice with `target` sides, over every group.
fn narrow_groups(groups: &Vec<(usize, Vec<Roll>)>, target: usize, high: bool) -> (r: Vec<
    (usize, Vec<Roll>),
>)
    ensures
        groups_view(r@) == narrow(groups_view(groups@), target, high),
{
    let ghost want = narrow(groups_view(groups@), target, high);
    let mut out: Vec<(usize, Vec<Roll>)> = Vec::new();
    let mut i: usize = 0;
    while i < groups.len()
        invariant
            i <= groups.len(),
            want == narrow(groups_view(groups@), target, high),
            groups_view(out@) =~= want.take(i as int),
        decreases groups.len() - i,
    {
        let sides = groups[i].0;
        let rolls = narrow_group(&groups[i].1, sides == target, high);
        let ghost before = out@;
        out.push((sides, rolls));
        proof {
            assert(groups_view(out@) =~= groups_view(before).push(groups_view(out@).last()));
            assert(want.take(i + 1) =~= want.take(i as int).push(want[i as int]));
        }
        i = i + 1;
    }
    out
}

/// A copy of `rolls`.
fn copy_rolls(rolls: &Vec<Roll>) -> (r: Vec<Roll>)
    ensures
        r@ == rolls@,
{
    let mut out: Vec<Roll> = Vec::new();
    let mut j: usize = 0;
    while j < rolls.len()
        invariant
            j <= rolls.len(),
            out@ =~= rolls@.take(j as int),
        decreases rolls.len() - j,
    {
        out.push(rolls[j]);
        j = j + 1;
    }
    out
}

/// A copy of `groups`.
fn copy_groups(groups: &Vec<(usize, Vec<Roll>)>) -> (r: Vec<(usize, Vec<Roll>)>)
    ensures
        groups_view(r@) == groups_view(groups@),
{
    let mut out: Vec<(usize, Vec<Roll>)> = Vec::new();
    let mut i: usize = 0;
    while i < groups.len()
        invariant
            i <= groups.len(),
            groups_view(out@) =~= groups_view(groups@).take(i as int),
        decreases groups.len() - i,
    {
        let ghost before = out@;
        out.push((groups[i].0, copy_rolls(&groups[i].1)));
        proof {
            assert(groups_view(out@) =~= groups_view(before).push(groups_view(out@).last()));
            assert(groups_view(groups@).take(i + 1) =~= groups_view(groups@).take(i as int).push(
                groups_view(groups@)[i as int],
            ));
        }
        i = i + 1;
    }
    out
}

/// Runs `chain` over `groups` in order, stopping at the first arithmetic modifier.
fn run_chain(groups: Vec<(usize, Vec<Roll>)>, chain: &Vec<Modifier>) -> (r: (
    Vec<(usize, Vec<Roll>)>,
    Option<i32>,
))
    requires
        fits_i32(groups_view(groups@), chain_view(chain@)),
    ensures
        groups_view(r.0@) == resolve(groups_view(groups@), chain_view(chain@)).0,
        groups_magnitude(groups_view(r.0@)) == groups_magnitude(groups_view(groups@)),
        match r.1 {
            Some(v) => resolve(groups_view(groups@), chain_view(chain@)).1 == Some(v as int),
            None => resolve(groups_view(groups@), chain_view(chain@)).1 is None,
        },
{
    let ghost start = groups_view(groups@);
    let ghost kinds = chain_view(chain@);
    let mut current = groups;
    let mut i: usize = 0;
    assert(kinds.skip(0) =~= kinds);
    while i < chain.len()
        invariant
            i <= chain.len(),
            kinds == chain_view(chain@),
            start == groups_view(groups@),
            fits_i32(start, kinds),
            resolve(groups_view(current@), kinds.skip(i as int)) == resolve(start, kinds),
            groups_magnitude(groups_view(current@)) == groups_magnitude(start),
        decreases chain.len() - i,
    {
        let kind = chain[i].kind();
        proof {
            assert(kinds.skip(i as int)[0] == kind);
            assert(kinds.skip(i as int).drop_first() =~= kinds.skip(i + 1));
        }
        match kind {
            ModifierKind::Arithmetic(op) => {
                let subtotal = sum_groups(&current);
                proof {
                    let rest = kinds.skip(i as int);
                    assert(resolve(groups_view(current@), rest) == (
                        groups_view(current@),
                        Some(op.spec_apply(groups_sum(groups_view(current@)))),
                    ));
                }
                let v = op.apply(subtotal);
                return (current, Some(v));
            },
            ModifierKind::Advantage(target) => {
                proof {
                    lemma_narrow_magnitude(groups_view(current@), target, true);
                }
                current = narrow_groups(&current, target, true);
            },
            ModifierKind::Disadvantage(target) => {
                proof {
                    lemma_narrow_magnitude(groups_view(current@), target, false);
                }
                current = narrow_groups(&current, target, false);
            },
        }
        i = i + 1;
    }
    proof {
        assert(kinds.skip(i as int).len() == 0);
    }
    (current, None)
}

/// Rolls grouped by the number of sides of the die that made them, and an
/// ordered chain of modifiers to evaluate over them.
#[derive(Debug)]
pub struct Rolls {
    groups: Vec<(usize, Vec<Roll>)>,
    modifiers: Vec<Modifier>,
}

/// What a roll set holds: its groups, in order of first use, and its chain.
pub struct RollsView {
    pub groups: Seq<Group>,
    pub chain: Seq<ModifierKind>,
}

impl View for Rolls {
    type V = RollsView;

    closed spec fn view(&self) -> RollsView {
        RollsView { groups: groups_view(self.groups@), chain: chain_view(self.modifiers@) }
    }
}

impl Rolls {
    /// Every die has at most one group.
    pub open spec fn wf(&self) -> bool {
        unique_sides(self@.groups)
    }

    /// Whether evaluating the set stays within `i32` (see [`fits_i32`]).
    pub open spec fn fits(&self) -> bool {
        fits_i32(self@.groups, self@.chain)
    }

    /// An empty roll set with no modifiers.
    pub fn new() -> (r: Rolls)
        ensures
            r.wf(),
            r@.groups == Seq::<Group>::empty(),
            r@.chain == Seq::<ModifierKind>::empty(),
    {
        let r = Rolls { groups: Vec::new(), modifiers: Vec::new() };
        assert(r@.groups =~= Seq::<Group>::empty());
        assert(r@.chain =~= Seq::<ModifierKind>::empty());
        r
    }

    /// The position of the group of `sides`, if there is one.
    fn position(&self, sides: usize) -> (r: Option<usize>)
        requires
            self.wf(),
        ensures
            r matches Some(i) ==> i < self.groups.len() && self.groups@[i as int].0 == sides,
            r is None ==> !has_group(self@.groups, sides),
    {
        let mut i: usize = 0;
        while i < self.groups.len()
            invariant
                i <= self.groups.len(),
                forall|j: int| 0 <= j < i ==> #[trigger] self@.groups[j].0 != sides,
            decreases self.groups.len() - i,
        {
            if self.groups[i].0 == sides {
                return Some(i);
            }
            i = i + 1;
        }
        None
    }

    /// The rolls made by dice with as many sides as `die`, in the order they
    /// were added; none when there are none.
    pub fn get<T: Die>(&self, die: &T) -> (r: Vec<Roll>)
        requires
            self.wf(),
        ensures
            r@ == rolls_for(self@.groups, die.spec_sides()),
    {
        match self.position(die.sides()) {
            Some(i) => {
                proof {
                    lemma_group_index(self@.groups, die.spec_sides(), i as int);
                }
                copy_rolls(&self.groups[i].1)
            },
            None => {
                let r: Vec<Roll> = Vec::new();
                assert(r@ =~= rolls_for(self@.groups, die.spec_sides()));
                r
            },
        }
    }

    /// Appends `values` to the group of `sides`, making the group first when missing.
    fn add_rolls(&mut self, sides: usize, values: Vec<Roll>)
        requires
            old(self).wf(),
        ensures
            final(self).wf(),
            final(self)@.groups == add_to(old(self)@.groups, sides, values@),
            final(self)@.chain == old(self)@.chain,
    {
        proof {
            lemma_add_to_unique(self@.groups, sides, values@);
        }
        let mut values = values;
        match self.position(sides) {
            Some(i) => {
                proof {
                    lemma_group_index(self@.groups, sides, i as int);
                }
                let ghost before = self@.groups;
                let ghost vals = values@;
                self.groups[i].1.append(&mut values);
                assert(self@.groups =~= before.update(i as int, (sides, before[i as int].1 + vals)));
            },
            None => {
                self.groups.push((sides, values));
                assert(self@.groups =~= add_to(old(self)@.groups, sides, values@));
            },
        }
    }

    /// Adds rolls made by `die`: they go after the rolls already made by dice
    /// with as many sides.
    pub fn add<T: Die>(&mut self, die: &T, values: Vec<Roll>)
        requires
            old(self).wf(),
        ensures
            final(self).wf(),
            final(self)@.groups == add_to(old(self)@.groups, die.spec_sides(), values@),
            final(self)@.chain == old(self)@.chain,
    {
        let sides = die.sides();
        self.add_rolls(sides, values);
    }

    /// Attaches `modifier` at the end of the chain.
    pub fn then(self, modifier: Modifier) -> (r: Rolls)
        ensures
            r@.groups == self@.groups,
            r@.chain == self@.chain.push(modifier@),
    {
        self.attach(modifier)
    }

    pub(crate) fn attach(self, modifier: Modifier) -> (r: Rolls)
        ensures
            r@.groups == self@.groups,
            r@.chain == self@.chain.push(modifier@),
    {
        let mut r = self;
        r.modifiers.push(modifier);
        assert(r@.chain =~= self@.chain.push(modifier@));
        r
    }

    /// The modifiers attached so far, in order.
    pub fn modifiers(&self) -> (r: &[Modifier])
        ensures
            chain_view(r@) == self@.chain,
    {
        self.modifiers.as_slice()
    }

    /// The total, leaving the set as it is: the chain runs over a copy of the rolls.
    pub fn peek(&self) -> (r: i32)
        requires
            self.fits(),
        ensures
            r == total_of(self@.groups, self@.chain),
    {
        let groups = copy_groups(&self.groups);
        let (after, value) = run_chain(groups, &self.modifiers);
        match value {
            Some(v) => v,
            None => sum_groups(&after),
        }
    }

    /// Runs the chain. The first arithmetic modifier gives the result; when
    /// there is none, the set comes back, its rolls as the chain left them.
    pub fn apply(self) -> (r: Result<i32, Rolls>)
        requires
            self.fits(),
        ensures
            match r {
                Ok(v) => resolve(self@.groups, self@.chain).1 == Some(v as int),
                Err(rest) => {
                    &&& resolve(self@.groups, self@.chain).1 is None
                    &&& rest@.groups == resolve(self@.groups, self@.chain).0
                    &&& rest@.chain == self@.chain
                    &&& (self.wf() ==> rest.wf())
                },
            },
    {
        proof {
            lemma_resolve_keeps(self@.groups, self@.chain);
            if self.wf() {
                lemma_unique_same_sides(self@.groups, resolve(self@.groups, self@.chain).0);
            }
        }
        let Rolls { groups, modifiers } = self;
        let (after, value) = run_chain(groups, &modifiers);
        match value {
            Some(v) => Ok(v),
            None => Err(Rolls { groups: after, modifiers }),
        }
    }

    /// Lets `func` look at the set, then hands the set on unchanged.
    pub fn inspect<F: Fn(&Rolls)>(self, func: F) -> (r: Rolls)
        requires
            func.requires((&self,)),
        ensures
            r == self,
    {
        func(&self);
        self
    }

    /// The total, consuming the set.
    pub fn total(self) -> (r: i32)
        requires
            self.fits(),
        ensures
            r == total_of(self@.groups, self@.chain),
    {
        self.peek()
    }

    /// Merges `other` into this set: its groups are added in order (rolls of
    /// a die already present go after the ones there) and its chain runs after
    /// this one.
    pub fn extend(self, other: Rolls) -> (r: Rolls)
        requires
            self.wf(),
        ensures
            r.wf(),
            r@.groups == merge(self@.groups, other@.groups),
            r@.chain == self@.chain + other@.chain,
    {
        let mut out = self;
        let mut other = other;
        let ghost theirs = other@.groups;
        let mut j: usize = 0;
        while j < other.groups.len()
            invariant
                j <= other.groups.len(),
                theirs == other@.groups,
                out.wf(),
                out@.groups == merge(self@.groups, theirs.take(j as int)),
                out@.chain == self@.chain,
            decreases other.groups.len() - j,
        {
            proof {
                assert(theirs.take(j + 1).drop_last() =~= theirs.take(j as int));
            }
            let rolls = copy_rolls(&other.groups[j].1);
            out.add_rolls(other.groups[j].0, rolls);
            j = j + 1;
        }
        assert(theirs.take(j as int) =~= theirs);
        let ghost mine = out@.chain;
        let ghost added = other@.chain;
        out.modifiers.append(&mut other.modifiers);
        assert(out@.chain =~= mine + added);
        proof {
            lemma_merge_unique(self@.groups, theirs);
        }
        out
    }
}

impl Default for Rolls {
    fn default() -> (r: Rolls)
        ensures
            r.wf(),
            r@.groups == Seq::<Group>::empty(),
            r@.chain == Seq::<ModifierKind>::empty(),
    {
        Rolls::new()
    }
}

/// Whether `rolls` are `times` visible rolls of a die with `sides` sides.
pub open spec fn fair_rolls(rolls: Seq<Roll>, sides: usize, times: usize) -> bool {
    &&& rolls.len() == times
    &&& forall|j: int|
        0 <= j < rolls.len() ==> !(#[trigger] rolls[j]).is_hidden() && 1 <= rolls[j].raw()
            <= sides
}

impl Rolls {
    /// A set holding `times` fresh rolls of a die with `sides` sides, and no modifiers.
    pub(crate) fn rolled(sides: usize, times: usize) -> (r: Rolls)
        requires
            1 <= sides <= i32::MAX,
        ensures
            r.wf(),
            r@.chain == Seq::<ModifierKind>::empty(),
            r@.groups.len() == 1,
            r@.groups[0].0 == sides,
            fair_rolls(r@.groups[0].1, sides, times),
    {
        let mut values: Vec<Roll> = Vec::new();
        let mut j: usize = 0;
        while j < times
            invariant
                j <= times,
                1 <= sides <= i32::MAX,
                fair_rolls(values@, sides, j),
            decreases times - j,
        {
            let v = sample_between(1, sides as i32);
            values.push(Roll::from(v));
            j = j + 1;
        }
        let mut r = Rolls::new();
        r.add_rolls(sides, values);
        assert(!has_group(Seq::<Group>::empty(), sides));
        r
    }
}

} // verus!
