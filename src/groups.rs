//! The abstract model of a roll set: groups of rolls keyed by number of
//! sides, how they are summed, narrowed by advantage and disadvantage, merged,
//! and how a modifier chain resolves over them.
use vstd::prelude::*;

use crate::modifier::ModifierKind;
use crate::roll::{group_roll, Roll};

verus! {

broadcast use group_roll;

/// The rolls of one kind of die, keyed by the die's number of sides.
pub type Group = (usize, Seq<Roll>);

/// The sum of the visible values of `rolls`, taken from the front.
pub open spec fn rolls_sum(rolls: Seq<Roll>) -> int
    decreases rolls.len(),
{
    if rolls.len() == 0 {
        0
    } else {
        rolls_sum(rolls.drop_last()) + rolls.last().counted()
    }
}

/// The sum of the absolute raw values of `rolls`, hidden ones included.
pub open spec fn magnitude(rolls: Seq<Roll>) -> int
    decreases rolls.len(),
{
    if rolls.len() == 0 {
        0
    } else {
        magnitude(rolls.drop_last()) + abs(rolls.last().raw())
    }
}

pub open spec fn abs(x: int) -> int {
    if x < 0 {
        -x
    } else {
        x
    }
}

/// The sum of the visible values of every group.
pub open spec fn groups_sum(groups: Seq<Group>) -> int
    decreases groups.len(),
{
    if groups.len() == 0 {
        0
    } else {
        groups_sum(groups.drop_last()) + rolls_sum(groups.last().1)
    }
}

/// The sum of the magnitudes of every group.
pub open spec fn groups_magnitude(groups: Seq<Group>) -> int
    decreases groups.len(),
{
    if groups.len() == 0 {
        0
    } else {
        groups_magnitude(groups.drop_last()) + magnitude(groups.last().1)
    }
}

/// Whether roll `a` is strictly better than roll `b`: higher when `high`, else lower.
pub open spec fn beats(a: Roll, b: Roll, high: bool) -> bool {
    if high {
        a.raw() > b.raw()
    } else {
        a.raw() < b.raw()
    }
}

/// The index of the first best roll of `rolls` (0 when there are none).
pub open spec fn best_index(rolls: Seq<Roll>, high: bool) -> int
    decreases rolls.len(),
{
    if rolls.len() <= 1 {
        0
    } else {
        let b = best_index(rolls.drop_last(), high);
        if beats(rolls.last(), rolls[b], high) {
            rolls.len() - 1
        } else {
            b
        }
    }
}

/// `rolls` with every roll hidden, except the first best one when `keep` holds.
pub open spec fn narrow_rolls(rolls: Seq<Roll>, keep: bool, high: bool) -> Seq<Roll> {
    Seq::new(
        rolls.len(),
        |j: int| rolls[j].with_hidden(!(keep && j == best_index(rolls, high))),
    )
}

/// Advantage (`high`) or disadvantage on dice with `target` sides: each group of
/// that die keeps only its first best roll visible; every other group is hidden.
pub open spec fn narrow(groups: Seq<Group>, target: usize, high: bool) -> Seq<Group> {
    Seq::new(
        groups.len(),
        |i: int| (groups[i].0, narrow_rolls(groups[i].1, groups[i].0 == target, high)),
    )
}

/// Runs a modifier chain over `groups`, in order: rolls after the in-place
/// modifiers that ran, and the value of the first arithmetic modifier, if any.
pub open spec fn resolve(groups: Seq<Group>, chain: Seq<ModifierKind>) -> (Seq<Group>, Option<int>)
    decreases chain.len(),
{
    if chain.len() == 0 {
        (groups, None)
    } else {
        match chain[0] {
            ModifierKind::Arithmetic(op) => (groups, Some(op.spec_apply(groups_sum(groups)))),
            ModifierKind::Advantage(s) => resolve(narrow(groups, s, true), chain.drop_first()),
            ModifierKind::Disadvantage(s) => resolve(narrow(groups, s, false), chain.drop_first()),
        }
    }
}

/// The total of a roll set: the first arithmetic result of its chain, or else
/// the visible sum once the chain has run.
pub open spec fn total_of(groups: Seq<Group>, chain: Seq<ModifierKind>) -> int {
    match resolve(groups, chain).1 {
        Some(v) => v,
        None => groups_sum(resolve(groups, chain).0),
    }
}

/// Whether evaluating `chain` over `groups` stays within `i32`: the magnitudes
/// fit, and so does the arithmetic result, if there is one.
pub open spec fn fits_i32(groups: Seq<Group>, chain: Seq<ModifierKind>) -> bool {
    &&& groups_magnitude(groups) <= i32::MAX
    &&& resolve(groups, chain).1 matches Some(v) ==> i32::MIN <= v <= i32::MAX
}

/// The abstract groups of a vector of groups.
pub open spec fn groups_view(groups: Seq<(usize, Vec<Roll>)>) -> Seq<Group> {
    groups.map_values(|g: (usize, Vec<Roll>)| (g.0, g.1@))
}

pub proof fn lemma_rolls_sum_bounded(rolls: Seq<Roll>)
    ensures
        abs(rolls_sum(rolls)) <= magnitude(rolls),
        magnitude(rolls) >= 0,
    decreases rolls.len(),
{
    if rolls.len() > 0 {
        lemma_rolls_sum_bounded(rolls.drop_last());
    }
}

pub proof fn lemma_magnitude_prefix(rolls: Seq<Roll>, i: int)
    requires
        0 <= i <= rolls.len(),
    ensures
        magnitude(rolls.take(i)) <= magnitude(rolls),
    decreases rolls.len(),
{
    if i < rolls.len() {
        assert(rolls.drop_last().take(i) =~= rolls.take(i));
        lemma_magnitude_prefix(rolls.drop_last(), i);
        lemma_rolls_sum_bounded(rolls.drop_last());
    } else {
        assert(rolls.take(i) =~= rolls);
    }
}

pub proof fn lemma_groups_sum_bounded(groups: Seq<Group>)
    ensures
        abs(groups_sum(groups)) <= groups_magnitude(groups),
        groups_magnitude(groups) >= 0,
    decreases groups.len(),
{
    if groups.len() > 0 {
        lemma_groups_sum_bounded(groups.drop_last());
        lemma_rolls_sum_bounded(groups.last().1);
    }
}

pub proof fn lemma_groups_magnitude_prefix(groups: Seq<Group>, i: int)
    requires
        0 <= i <= groups.len(),
    ensures
        groups_magnitude(groups.take(i)) <= groups_magnitude(groups),
    decreases groups.len(),
{
    if i < groups.len() {
        assert(groups.drop_last().take(i) =~= groups.take(i));
        lemma_groups_magnitude_prefix(groups.drop_last(), i);
        lemma_rolls_sum_bounded(groups.last().1);
    } else {
        assert(groups.take(i) =~= groups);
    }
}

/// Changing only visibility keeps the magnitude.
pub proof fn lemma_magnitude_same_raw(a: Seq<Roll>, b: Seq<Roll>)
    requires
        a.len() == b.len(),
        forall|j: int| 0 <= j < a.len() ==> #[trigger] a[j].raw() == b[j].raw(),
    ensures
        magnitude(a) == magnitude(b),
    decreases a.len(),
{
    if a.len() > 0 {
        lemma_magnitude_same_raw(a.drop_last(), b.drop_last());
    }
}

/// Narrowing keeps the groups' sides and magnitudes.
pub proof fn lemma_narrow_magnitude(groups: Seq<Group>, target: usize, high: bool)
    ensures
        groups_magnitude(narrow(groups, target, high)) == groups_magnitude(groups),
    decreases groups.len(),
{
    if groups.len() > 0 {
        let n = narrow(groups, target, high);
        assert(n.drop_last() =~= narrow(groups.drop_last(), target, high));
        lemma_narrow_magnitude(groups.drop_last(), target, high);
        let last = groups.last().1;
        let narrowed = narrow_rolls(last, groups.last().0 == target, high);
        lemma_magnitude_same_raw(last, narrowed);
    }
}

/// No two groups share a number of sides.
pub open spec fn unique_sides(groups: Seq<Group>) -> bool {
    forall|i: int, j: int|
        0 <= i < groups.len() && 0 <= j < groups.len() && i != j ==> #[trigger] groups[i].0
            != #[trigger] groups[j].0
}

/// Whether some group holds the rolls of dice with `sides` sides.
pub open spec fn has_group(groups: Seq<Group>, sides: usize) -> bool {
    exists|i: int| 0 <= i < groups.len() && #[trigger] groups[i].0 == sides
}

/// The position of the group of dice with `sides` sides.
pub open spec fn group_index(groups: Seq<Group>, sides: usize) -> int {
    choose|i: int| 0 <= i < groups.len() && #[trigger] groups[i].0 == sides
}

/// The rolls of dice with `sides` sides; none when there is no such group.
pub open spec fn rolls_for(groups: Seq<Group>, sides: usize) -> Seq<Roll> {
    if has_group(groups, sides) {
        groups[group_index(groups, sides)].1
    } else {
        Seq::empty()
    }
}

/// `groups` with `rolls` appended to the group of `sides`, made empty first
/// when there is none.
pub open spec fn add_to(groups: Seq<Group>, sides: usize, rolls: Seq<Roll>) -> Seq<Group> {
    if has_group(groups, sides) {
        let i = group_index(groups, sides);
        groups.update(i, (sides, groups[i].1 + rolls))
    } else {
        groups.push((sides, rolls))
    }
}

/// The groups of `other` added, in order, to `groups`.
pub open spec fn merge(groups: Seq<Group>, other: Seq<Group>) -> Seq<Group>
    decreases other.len(),
{
    if other.len() == 0 {
        groups
    } else {
        add_to(merge(groups, other.drop_last()), other.last().0, other.last().1)
    }
}

/// The sides of each group, in order.
pub open spec fn sides_of(groups: Seq<Group>) -> Seq<usize> {
    groups.map_values(|g: Group| g.0)
}

/// Where the group of `sides` sits, when `groups` has unique sides.
pub proof fn lemma_group_index(groups: Seq<Group>, sides: usize, i: int)
    requires
        unique_sides(groups),
        0 <= i < groups.len(),
        groups[i].0 == sides,
    ensures
        has_group(groups, sides),
        group_index(groups, sides) == i,
        rolls_for(groups, sides) == groups[i].1,
{
    assert(has_group(groups, sides));
}

pub proof fn lemma_add_to_unique(groups: Seq<Group>, sides: usize, rolls: Seq<Roll>)
    requires
        unique_sides(groups),
    ensures
        unique_sides(add_to(groups, sides, rolls)),
        sides_of(add_to(groups, sides, rolls)) == if has_group(groups, sides) {
            sides_of(groups)
        } else {
            sides_of(groups).push(sides)
        },
{
    let r = add_to(groups, sides, rolls);
    if has_group(groups, sides) {
        assert(sides_of(r) =~= sides_of(groups));
    } else {
        assert(sides_of(r) =~= sides_of(groups).push(sides));
    }
}

/// What `add_to` does to the rolls of each die.
pub proof fn lemma_add_to_rolls_for(groups: Seq<Group>, sides: usize, rolls: Seq<Roll>, t: usize)
    requires
        unique_sides(groups),
    ensures
        rolls_for(add_to(groups, sides, rolls), t) == if t == sides {
            rolls_for(groups, sides) + rolls
        } else {
            rolls_for(groups, t)
        },
{
    let r = add_to(groups, sides, rolls);
    lemma_add_to_unique(groups, sides, rolls);
    if has_group(groups, sides) {
        let i = group_index(groups, sides);
        lemma_group_index(r, sides, i);
        if t != sides && has_group(groups, t) {
            let k = group_index(groups, t);
            lemma_group_index(r, t, k);
        } else if t != sides {
            assert(!has_group(r, t));
        }
    } else {
        lemma_group_index(r, sides, groups.len() as int);
        assert(rolls_for(groups, sides) =~= Seq::<Roll>::empty());
        assert(rolls_for(groups, sides) + rolls =~= rolls);
        if t != sides && has_group(groups, t) {
            let k = group_index(groups, t);
            lemma_group_index(r, t, k);
        } else if t != sides {
            assert(!has_group(r, t));
        }
    }
}

pub proof fn lemma_merge_unique(groups: Seq<Group>, other: Seq<Group>)
    requires
        unique_sides(groups),
    ensures
        unique_sides(merge(groups, other)),
    decreases other.len(),
{
    if other.len() > 0 {
        lemma_merge_unique(groups, other.drop_last());
        lemma_add_to_unique(merge(groups, other.drop_last()), other.last().0, other.last().1);
    }
}

/// Narrowing keeps every group's sides.
pub proof fn lemma_narrow_sides(groups: Seq<Group>, target: usize, high: bool)
    ensures
        sides_of(narrow(groups, target, high)) == sides_of(groups),
{
    assert(sides_of(narrow(groups, target, high)) =~= sides_of(groups));
}

/// Running a chain keeps every group's sides and the magnitude.
pub proof fn lemma_resolve_keeps(groups: Seq<Group>, chain: Seq<ModifierKind>)
    ensures
        sides_of(resolve(groups, chain).0) == sides_of(groups),
        groups_magnitude(resolve(groups, chain).0) == groups_magnitude(groups),
    decreases chain.len(),
{
    if chain.len() > 0 {
        match chain[0] {
            ModifierKind::Arithmetic(_) => {},
            ModifierKind::Advantage(s) => {
                lemma_narrow_sides(groups, s, true);
                lemma_narrow_magnitude(groups, s, true);
                lemma_resolve_keeps(narrow(groups, s, true), chain.drop_first());
            },
            ModifierKind::Disadvantage(s) => {
                lemma_narrow_sides(groups, s, false);
                lemma_narrow_magnitude(groups, s, false);
                lemma_resolve_keeps(narrow(groups, s, false), chain.drop_first());
            },
        }
    }
}

/// Groups with the same sides in the same order are all unique or all not.
pub proof fn lemma_unique_same_sides(a: Seq<Group>, b: Seq<Group>)
    requires
        sides_of(a) == sides_of(b),
        unique_sides(a),
    ensures
        unique_sides(b),
{
    assert forall|i: int, j: int|
        0 <= i < b.len() && 0 <= j < b.len() && i != j implies #[trigger] b[i].0
        != #[trigger] b[j].0 by {
        assert(sides_of(a).len() == a.len() && sides_of(b).len() == b.len());
        assert(sides_of(a)[i] == sides_of(b)[i]);
        assert(sides_of(a)[j] == sides_of(b)[j]);
        assert(sides_of(a)[i] == a[i].0);
        assert(sides_of(b)[i] == b[i].0);
        assert(sides_of(a)[j] == a[j].0);
        assert(sides_of(b)[j] == b[j].0);
        assert(a[i].0 == b[i].0 && a[j].0 == b[j].0);
        assert(a[i].0 != a[j].0);
    }
}

/// `sides` appended to `ks` unless already there.
pub open spec fn add_side(ks: Seq<usize>, sides: usize) -> Seq<usize> {
    if ks.contains(sides) {
        ks
    } else {
        ks.push(sides)
    }
}

/// The sides of `ls` added, in order, to `ks`.
pub open spec fn merge_sides(ks: Seq<usize>, ls: Seq<usize>) -> Seq<usize>
    decreases ls.len(),
{
    if ls.len() == 0 {
        ks
    } else {
        add_side(merge_sides(ks, ls.drop_last()), ls.last())
    }
}

pub proof fn lemma_has_group_sides(groups: Seq<Group>, sides: usize)
    ensures
        has_group(groups, sides) <==> sides_of(groups).contains(sides),
{
    if has_group(groups, sides) {
        let i = group_index(groups, sides);
        assert(sides_of(groups)[i] == sides);
    }
    if sides_of(groups).contains(sides) {
        let i = choose|i: int| 0 <= i < sides_of(groups).len() && sides_of(groups)[i] == sides;
        assert(groups[i].0 == sides);
    }
}

/// The sides of a merge, in order: those of `groups`, then the new ones of `other`.
pub proof fn lemma_merge_sides(groups: Seq<Group>, other: Seq<Group>)
    requires
        unique_sides(groups),
    ensures
        sides_of(merge(groups, other)) == merge_sides(sides_of(groups), sides_of(other)),
    decreases other.len(),
{
    if other.len() > 0 {
        let prev = merge(groups, other.drop_last());
        lemma_merge_sides(groups, other.drop_last());
        lemma_merge_unique(groups, other.drop_last());
        lemma_add_to_unique(prev, other.last().0, other.last().1);
        lemma_has_group_sides(prev, other.last().0);
        assert(sides_of(other).drop_last() =~= sides_of(other.drop_last()));
    } else {
        assert(sides_of(other).len() == 0);
    }
}

/// A merge keeps every side of both operands.
pub proof fn lemma_merge_sides_contains(ks: Seq<usize>, ls: Seq<usize>, x: usize)
    requires
        ks.contains(x) || ls.contains(x),
    ensures
        merge_sides(ks, ls).contains(x),
    decreases ls.len(),
{
    if ls.len() > 0 {
        let prev = merge_sides(ks, ls.drop_last());
        if ks.contains(x) || ls.drop_last().contains(x) {
            lemma_merge_sides_contains(ks, ls.drop_last(), x);
            if !prev.contains(ls.last()) {
                let k = choose|k: int| 0 <= k < prev.len() && prev[k] == x;
                assert(prev.push(ls.last())[k] == x);
            }
        } else {
            let k = choose|k: int| 0 <= k < ls.len() && ls[k] == x;
            if k < ls.len() - 1 {
                assert(ls.drop_last()[k] == x);
            }
            if !prev.contains(ls.last()) {
                assert(prev.push(ls.last())[prev.len() as int] == x);
            }
        }
    }
}

proof fn lemma_merge_sides_add_side(ks: Seq<usize>, ys: Seq<usize>, c: usize)
    ensures
        merge_sides(ks, add_side(ys, c)) == add_side(merge_sides(ks, ys), c),
{
    if ys.contains(c) {
        lemma_merge_sides_contains(ks, ys, c);
    } else {
        assert(ys.push(c).drop_last() =~= ys);
    }
}

/// Merging sides is associative.
pub proof fn lemma_merge_sides_associative(a: Seq<usize>, b: Seq<usize>, c: Seq<usize>)
    ensures
        merge_sides(merge_sides(a, b), c) == merge_sides(a, merge_sides(b, c)),
    decreases c.len(),
{
    if c.len() > 0 {
        lemma_merge_sides_associative(a, b, c.drop_last());
        lemma_merge_sides_add_side(a, merge_sides(b, c.drop_last()), c.last());
    }
}

/// What a merge holds for each die: the rolls of `groups`, then those of `other`.
pub proof fn lemma_merge_rolls_for(groups: Seq<Group>, other: Seq<Group>, t: usize)
    requires
        unique_sides(groups),
        unique_sides(other),
    ensures
        rolls_for(merge(groups, other), t) == rolls_for(groups, t) + rolls_for(other, t),
    decreases other.len(),
{
    if other.len() == 0 {
        assert(!has_group(other, t));
        assert(rolls_for(groups, t) + Seq::<Roll>::empty() =~= rolls_for(groups, t));
    } else {
        let front = other.drop_last();
        let l = other.last();
        assert(unique_sides(front));
        lemma_merge_rolls_for(groups, front, t);
        lemma_merge_unique(groups, front);
        lemma_add_to_rolls_for(merge(groups, front), l.0, l.1, t);
        assert(!has_group(front, l.0)) by {
            if has_group(front, l.0) {
                let k = group_index(front, l.0);
                assert(other[k].0 == other[other.len() - 1].0);
            }
        }
        assert(add_to(front, l.0, l.1) =~= other);
        lemma_add_to_rolls_for(front, l.0, l.1, t);
        if t == l.0 {
            assert(rolls_for(front, t) =~= Seq::<Roll>::empty());
            assert(rolls_for(groups, t) + rolls_for(front, t) =~= rolls_for(groups, t));
            assert(rolls_for(front, t) + l.1 =~= l.1);
        }
    }
}

/// Groups with unique sides are fixed by their order of sides and their rolls per die.
pub proof fn lemma_groups_ext(a: Seq<Group>, b: Seq<Group>)
    requires
        unique_sides(a),
        unique_sides(b),
        sides_of(a) == sides_of(b),
        forall|t: usize| rolls_for(a, t) == rolls_for(b, t),
    ensures
        a == b,
{
    assert(sides_of(a).len() == a.len() && sides_of(b).len() == b.len());
    assert forall|i: int| 0 <= i < a.len() implies a[i] == b[i] by {
        assert(sides_of(a)[i] == sides_of(b)[i]);
        assert(sides_of(a)[i] == a[i].0 && sides_of(b)[i] == b[i].0);
        lemma_group_index(a, a[i].0, i);
        lemma_group_index(b, b[i].0, i);
        assert(rolls_for(a, a[i].0) == rolls_for(b, a[i].0));
        assert(a[i].1 == b[i].1);
    }
    assert(a =~= b);
}

pub proof fn lemma_rolls_sum_concat(x: Seq<Roll>, y: Seq<Roll>)
    ensures
        rolls_sum(x + y) == rolls_sum(x) + rolls_sum(y),
    decreases y.len(),
{
    if y.len() == 0 {
        assert(x + y =~= x);
    } else {
        lemma_rolls_sum_concat(x, y.drop_last());
        assert((x + y).drop_last() =~= x + y.drop_last());
    }
}

proof fn lemma_groups_sum_update(groups: Seq<Group>, i: int, g: Group)
    requires
        0 <= i < groups.len(),
    ensures
        groups_sum(groups.update(i, g)) == groups_sum(groups) - rolls_sum(groups[i].1) + rolls_sum(g.1),
    decreases groups.len(),
{
    if i < groups.len() - 1 {
        lemma_groups_sum_update(groups.drop_last(), i, g);
        assert(groups.update(i, g).drop_last() =~= groups.drop_last().update(i, g));
    } else {
        assert(groups.update(i, g).drop_last() =~= groups.drop_last());
    }
}

pub proof fn lemma_add_to_sum(groups: Seq<Group>, sides: usize, rolls: Seq<Roll>)
    ensures
        groups_sum(add_to(groups, sides, rolls)) == groups_sum(groups) + rolls_sum(rolls),
{
    if has_group(groups, sides) {
        let i = group_index(groups, sides);
        lemma_groups_sum_update(groups, i, (sides, groups[i].1 + rolls));
        lemma_rolls_sum_concat(groups[i].1, rolls);
    } else {
        assert(groups.push((sides, rolls)).drop_last() =~= groups);
    }
}

/// The visible sum of a merge is the sum of both operands' visible sums.
pub proof fn lemma_merge_sum(groups: Seq<Group>, other: Seq<Group>)
    ensures
        groups_sum(merge(groups, other)) == groups_sum(groups) + groups_sum(other),
    decreases other.len(),
{
    if other.len() > 0 {
        lemma_merge_sum(groups, other.drop_last());
        lemma_add_to_sum(merge(groups, other.drop_last()), other.last().0, other.last().1);
    }
}

/// A side is in a merge exactly when it is in one of the operands.
pub proof fn lemma_merge_sides_contains_iff(ks: Seq<usize>, ls: Seq<usize>, x: usize)
    ensures
        merge_sides(ks, ls).contains(x) <==> ks.contains(x) || ls.contains(x),
    decreases ls.len(),
{
    if ks.contains(x) || ls.contains(x) {
        lemma_merge_sides_contains(ks, ls, x);
    }
    if ls.len() > 0 {
        lemma_merge_sides_contains_iff(ks, ls.drop_last(), x);
        let prev = merge_sides(ks, ls.drop_last());
        if merge_sides(ks, ls).contains(x) && !prev.contains(x) {
            assert(x == ls.last()) by {
                let k = choose|k: int| 0 <= k < prev.push(ls.last()).len() && prev.push(ls.last())[k] == x;
                if k < prev.len() {
                    assert(prev[k] == x);
                }
            }
            assert(ls[ls.len() - 1] == x);
        }
        if ls.drop_last().contains(x) {
            let k = choose|k: int| 0 <= k < ls.drop_last().len() && ls.drop_last()[k] == x;
            assert(ls[k] == x);
        }
        if ls.contains(x) && !ls.drop_last().contains(x) {
            let k = choose|k: int| 0 <= k < ls.len() && ls[k] == x;
            if k < ls.len() - 1 {
                assert(ls.drop_last()[k] == x);
            }
        }
    }
}

/// The groups with their hidden rolls left out.
pub open spec fn visible_only(groups: Seq<Group>) -> Seq<Group> {
    groups.map_values(|g: Group| (g.0, g.1.filter(|r: Roll| !r.is_hidden())))
}

pub proof fn lemma_rolls_sum_visible(rolls: Seq<Roll>)
    ensures
        rolls_sum(rolls.filter(|r: Roll| !r.is_hidden())) == rolls_sum(rolls),
    decreases rolls.len(),
{
    reveal(Seq::filter);
    if rolls.len() > 0 {
        lemma_rolls_sum_visible(rolls.drop_last());
        let sub = rolls.drop_last().filter(|r: Roll| !r.is_hidden());
        assert(sub.push(rolls.last()).drop_last() =~= sub);
    }
}

pub proof fn lemma_groups_sum_visible(groups: Seq<Group>)
    ensures
        groups_sum(visible_only(groups)) == groups_sum(groups),
    decreases groups.len(),
{
    if groups.len() > 0 {
        lemma_groups_sum_visible(groups.drop_last());
        assert(visible_only(groups).drop_last() =~= visible_only(groups.drop_last()));
        lemma_rolls_sum_visible(groups.last().1);
    }
}

} // verus!
