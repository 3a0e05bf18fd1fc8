//! Evaluation does not depend on the order of rolls within a die's group or
//! on the order of the groups, as long as the visible sums agree.
use vstd::prelude::*;

use crate::groups::{
    beats, best_index, groups_sum, group_index, has_group, lemma_group_index,
    lemma_has_group_sides, lemma_merge_rolls_for, lemma_merge_sides,
    lemma_merge_sides_contains_iff, lemma_merge_sum, lemma_merge_unique, lemma_narrow_sides,
    lemma_unique_same_sides, merge, narrow, narrow_rolls, resolve, rolls_for, rolls_sum,
    sides_of, total_of, unique_sides, Group,
};
use crate::modifier::ModifierKind;
use crate::roll::{group_roll, Roll};

verus! {

broadcast use group_roll;

/// The raw values of `rolls`, in order.
pub open spec fn raws(rolls: Seq<Roll>) -> Seq<int> {
    rolls.map_values(|r: Roll| r.raw())
}

/// Two lists of groups that any modifier chain evaluates alike: the same
/// dice, the same raw values for each die up to order, the same visible sum.
pub open spec fn alike(a: Seq<Group>, b: Seq<Group>) -> bool {
    &&& unique_sides(a)
    &&& unique_sides(b)
    &&& forall|s: usize| #[trigger] has_group(a, s) <==> has_group(b, s)
    &&& forall|s: usize|
        #[trigger] raws(rolls_for(a, s)).to_multiset() == raws(rolls_for(b, s)).to_multiset()
    &&& groups_sum(a) == groups_sum(b)
}

/// The first best roll is at least as good as every roll.
proof fn lemma_best_is_extreme(rolls: Seq<Roll>, high: bool)
    requires
        rolls.len() > 0,
    ensures
        0 <= best_index(rolls, high) < rolls.len(),
        forall|j: int|
            0 <= j < rolls.len() ==> !beats(#[trigger] rolls[j], rolls[best_index(rolls, high)], high),
    decreases rolls.len(),
{
    if rolls.len() > 1 {
        let front = rolls.drop_last();
        lemma_best_is_extreme(front, high);
        assert forall|j: int| 0 <= j < rolls.len() implies !beats(
            #[trigger] rolls[j],
            rolls[best_index(rolls, high)],
            high,
        ) by {
            if j < rolls.len() - 1 {
                assert(rolls[j] == front[j]);
            }
        }
    }
}

/// Rolls with the same raw values up to order have equally good best rolls.
proof fn lemma_best_raw_alike(a: Seq<Roll>, b: Seq<Roll>, high: bool)
    requires
        raws(a).to_multiset() == raws(b).to_multiset(),
        a.len() > 0,
    ensures
        b.len() > 0,
        a[best_index(a, high)].raw() == b[best_index(b, high)].raw(),
{
    raws(a).to_multiset_ensures();
    raws(b).to_multiset_ensures();
    assert(b.len() > 0);
    lemma_best_is_extreme(a, high);
    lemma_best_is_extreme(b, high);
    let ba = best_index(a, high);
    let bb = best_index(b, high);
    assert(raws(a)[ba] == a[ba].raw());
    assert(raws(a).contains(a[ba].raw()));
    assert(raws(a).to_multiset().count(a[ba].raw()) > 0);
    assert(raws(b).to_multiset().count(a[ba].raw()) > 0);
    assert(raws(b).contains(a[ba].raw()));
    let j = choose|j: int| 0 <= j < raws(b).len() && raws(b)[j] == a[ba].raw();
    assert(raws(b)[j] == b[j].raw());
    assert(!beats(b[j], b[bb], high));
    assert(raws(b)[bb] == b[bb].raw());
    assert(raws(b).contains(b[bb].raw()));
    assert(raws(b).to_multiset().count(b[bb].raw()) > 0);
    assert(raws(a).to_multiset().count(b[bb].raw()) > 0);
    assert(raws(a).contains(b[bb].raw()));
    let i = choose|i: int| 0 <= i < raws(a).len() && raws(a)[i] == b[bb].raw();
    assert(raws(a)[i] == a[i].raw());
    assert(!beats(a[i], a[ba], high));
}

/// When every roll but the one at `k` is hidden, the visible sum is that roll's.
proof fn lemma_rolls_sum_single(x: Seq<Roll>, k: int)
    requires
        forall|j: int| 0 <= j < x.len() && j != k ==> (#[trigger] x[j]).is_hidden(),
    ensures
        rolls_sum(x) == if 0 <= k < x.len() {
            x[k].counted()
        } else {
            0
        },
    decreases x.len(),
{
    if x.len() > 0 {
        let front = x.drop_last();
        assert forall|j: int| 0 <= j < front.len() && j != k implies (#[trigger] front[j]).is_hidden() by {
            assert(front[j] == x[j]);
        }
        lemma_rolls_sum_single(front, k);
        if 0 <= k < front.len() {
            assert(front[k] == x[k]);
        }
    }
}

/// The visible sum of narrowed rolls: the best raw value when kept, else 0.
proof fn lemma_narrow_rolls_sum(rolls: Seq<Roll>, keep: bool, high: bool)
    ensures
        rolls_sum(narrow_rolls(rolls, keep, high)) == if keep && rolls.len() > 0 {
            rolls[best_index(rolls, high)].raw()
        } else {
            0
        },
{
    let x = narrow_rolls(rolls, keep, high);
    let b = best_index(rolls, high);
    let k = if keep { b } else { -1 };
    if rolls.len() > 0 {
        lemma_best_is_extreme(rolls, high);
    }
    assert forall|j: int| 0 <= j < x.len() && j != k implies (#[trigger] x[j]).is_hidden() by {
        assert(x[j] == rolls[j].with_hidden(!(keep && j == b)));
    }
    lemma_rolls_sum_single(x, k);
    if keep && rolls.len() > 0 {
        assert(x[k] == rolls[b].with_hidden(false));
    }
}

/// When every group but the one at `k` sums to 0, the visible sum is that group's.
proof fn lemma_groups_sum_single(x: Seq<Group>, k: int)
    requires
        forall|i: int| 0 <= i < x.len() && i != k ==> rolls_sum((#[trigger] x[i]).1) == 0,
    ensures
        groups_sum(x) == if 0 <= k < x.len() {
            rolls_sum(x[k].1)
        } else {
            0
        },
    decreases x.len(),
{
    if x.len() > 0 {
        let front = x.drop_last();
        assert forall|i: int| 0 <= i < front.len() && i != k implies rolls_sum((#[trigger] front[i]).1) == 0 by {
            assert(front[i] == x[i]);
        }
        lemma_groups_sum_single(front, k);
        if 0 <= k < front.len() {
            assert(front[k] == x[k]);
        }
    }
}

/// The visible sum after advantage or disadvantage: the best raw value among
/// the target die's rolls, or 0 when it has none.
proof fn lemma_narrow_sum(groups: Seq<Group>, target: usize, high: bool)
    requires
        unique_sides(groups),
    ensures
        groups_sum(narrow(groups, target, high)) == if has_group(groups, target) && rolls_for(
            groups,
            target,
        ).len() > 0 {
            rolls_for(groups, target)[best_index(rolls_for(groups, target), high)].raw()
        } else {
            0
        },
{
    let x = narrow(groups, target, high);
    let k = if has_group(groups, target) {
        group_index(groups, target)
    } else {
        -1
    };
    if has_group(groups, target) {
        lemma_group_index(groups, target, k);
    }
    assert forall|i: int| 0 <= i < x.len() && i != k implies rolls_sum((#[trigger] x[i]).1) == 0 by {
        lemma_narrow_rolls_sum(groups[i].1, groups[i].0 == target, high);
        if groups[i].0 == target {
            lemma_group_index(groups, target, i);
        }
    }
    lemma_groups_sum_single(x, k);
    if has_group(groups, target) {
        lemma_narrow_rolls_sum(groups[k].1, true, high);
    }
}

/// Narrowing keeps which dice are present and the raw values of each.
proof fn lemma_narrow_rolls_for(groups: Seq<Group>, target: usize, high: bool, s: usize)
    requires
        unique_sides(groups),
    ensures
        unique_sides(narrow(groups, target, high)),
        has_group(narrow(groups, target, high), s) <==> has_group(groups, s),
        raws(rolls_for(narrow(groups, target, high), s)) == raws(rolls_for(groups, s)),
{
    let x = narrow(groups, target, high);
    lemma_narrow_sides(groups, target, high);
    lemma_unique_same_sides(groups, x);
    if has_group(groups, s) {
        let k = group_index(groups, s);
        lemma_group_index(groups, s, k);
        lemma_group_index(x, s, k);
        assert(raws(x[k].1) =~= raws(groups[k].1));
    } else {
        assert(!has_group(x, s)) by {
            if has_group(x, s) {
                let k = group_index(x, s);
                assert(groups[k].0 == s);
            }
        }
        assert(raws(rolls_for(x, s)) =~= raws(rolls_for(groups, s)));
    }
}

/// Advantage or disadvantage keeps two alike lists alike.
proof fn lemma_narrow_alike(a: Seq<Group>, b: Seq<Group>, target: usize, high: bool)
    requires
        alike(a, b),
    ensures
        alike(narrow(a, target, high), narrow(b, target, high)),
{
    let (na, nb) = (narrow(a, target, high), narrow(b, target, high));
    assert forall|s: usize| #[trigger] has_group(na, s) <==> has_group(nb, s) by {
        lemma_narrow_rolls_for(a, target, high, s);
        lemma_narrow_rolls_for(b, target, high, s);
        assert(has_group(a, s) <==> has_group(b, s));
    }
    assert forall|s: usize|
        #[trigger] raws(rolls_for(na, s)).to_multiset() == raws(rolls_for(nb, s)).to_multiset() by {
        lemma_narrow_rolls_for(a, target, high, s);
        lemma_narrow_rolls_for(b, target, high, s);
        assert(raws(rolls_for(a, s)).to_multiset() == raws(rolls_for(b, s)).to_multiset());
    }
    lemma_narrow_rolls_for(a, target, high, target);
    lemma_narrow_rolls_for(b, target, high, target);
    lemma_narrow_sum(a, target, high);
    lemma_narrow_sum(b, target, high);
    assert(has_group(a, target) <==> has_group(b, target));
    let (ra, rb) = (rolls_for(a, target), rolls_for(b, target));
    assert(raws(ra).to_multiset() == raws(rb).to_multiset());
    raws(ra).to_multiset_ensures();
    raws(rb).to_multiset_ensures();
    assert(raws(ra).len() == ra.len() && raws(rb).len() == rb.len());
    if ra.len() > 0 {
        lemma_best_raw_alike(ra, rb, high);
    }
}

/// Alike lists give the same result under any chain, and stay alike.
proof fn lemma_resolve_alike(a: Seq<Group>, b: Seq<Group>, chain: Seq<ModifierKind>)
    requires
        alike(a, b),
    ensures
        resolve(a, chain).1 == resolve(b, chain).1,
        alike(resolve(a, chain).0, resolve(b, chain).0),
    decreases chain.len(),
{
    if chain.len() > 0 {
        match chain[0] {
            ModifierKind::Arithmetic(_) => {},
            ModifierKind::Advantage(s) => {
                lemma_narrow_alike(a, b, s, true);
                lemma_resolve_alike(narrow(a, s, true), narrow(b, s, true), chain.drop_first());
            },
            ModifierKind::Disadvantage(s) => {
                lemma_narrow_alike(a, b, s, false);
                lemma_resolve_alike(narrow(a, s, false), narrow(b, s, false), chain.drop_first());
            },
        }
    }
}

/// Alike lists have the same total under any chain.
pub proof fn lemma_total_alike(a: Seq<Group>, b: Seq<Group>, chain: Seq<ModifierKind>)
    requires
        alike(a, b),
    ensures
        total_of(a, chain) == total_of(b, chain),
{
    lemma_resolve_alike(a, b, chain);
}

/// Merging in either order gives alike lists.
pub proof fn lemma_merge_alike(a: Seq<Group>, b: Seq<Group>)
    requires
        unique_sides(a),
        unique_sides(b),
    ensures
        alike(merge(a, b), merge(b, a)),
{
    let (ab, ba) = (merge(a, b), merge(b, a));
    lemma_merge_unique(a, b);
    lemma_merge_unique(b, a);
    lemma_merge_sides(a, b);
    lemma_merge_sides(b, a);
    assert forall|s: usize| #[trigger] has_group(ab, s) <==> has_group(ba, s) by {
        lemma_has_group_sides(ab, s);
        lemma_has_group_sides(ba, s);
        lemma_merge_sides_contains_iff(sides_of(a), sides_of(b), s);
        lemma_merge_sides_contains_iff(sides_of(b), sides_of(a), s);
    }
    assert forall|s: usize|
        #[trigger] raws(rolls_for(ab, s)).to_multiset() == raws(rolls_for(ba, s)).to_multiset() by {
        lemma_merge_rolls_for(a, b, s);
        lemma_merge_rolls_for(b, a, s);
        let (x, y) = (rolls_for(a, s), rolls_for(b, s));
        assert(raws(x + y) =~= raws(x) + raws(y));
        assert(raws(y + x) =~= raws(y) + raws(x));
        vstd::seq_lib::lemma_seq_union_to_multiset_commutative(raws(x), raws(y));
    }
    lemma_merge_sum(a, b);
    lemma_merge_sum(b, a);
}

} // verus!
