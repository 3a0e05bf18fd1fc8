//! Properties that relate several operations of the library, proved once
//! for all inputs.
use vstd::prelude::*;
use vstd::seq_lib::lemma_seq_union_to_multiset_commutative;

use crate::ability::{check_base, modifier_for, skill_base, Ability, Check, Skill};
use crate::creature::{proficiency_term, Creature};
use crate::groups::{
    add_to, groups_sum, lemma_groups_sum_visible, visible_only, lemma_groups_ext, lemma_merge_rolls_for, lemma_merge_sides,
    lemma_merge_sides_associative, lemma_merge_sum, lemma_merge_unique, merge, resolve,
    rolls_for, rolls_sum, sides_of, total_of, Group,
};
use crate::modifier::{Arithmetic, ModifierKind};
use crate::proficiency::{Proficiency, ProficiencyType};
use crate::reorder::{lemma_merge_alike, lemma_total_alike};
use crate::roll::{group_roll, Roll};
use crate::rolls::Rolls;

verus! {

broadcast use group_roll;

proof fn lemma_repeated_sum(rolls: Seq<Roll>, v: i32)
    requires
        forall|j: int| 0 <= j < rolls.len() ==> #[trigger] rolls[j] == Roll::shown(v),
    ensures
        rolls_sum(rolls) == rolls.len() * v,
    decreases rolls.len(),
{
    if rolls.len() > 0 {
        lemma_repeated_sum(rolls.drop_last(), v);
        let k = rolls.len() as int;
        assert((k - 1) * v + v == k * v) by (nonlinear_arith);
    }
}

/// Adding `k` visible rolls of value `v` to an empty set, with no modifiers,
/// gives a total of `k * v`.
pub proof fn law_repeated_rolls_total(sides: usize, rolls: Seq<Roll>, v: i32)
    requires
        forall|j: int| 0 <= j < rolls.len() ==> #[trigger] rolls[j] == Roll::shown(v),
    ensures
        total_of(add_to(Seq::<Group>::empty(), sides, rolls), Seq::<ModifierKind>::empty())
            == rolls.len() * v,
{
    let groups = add_to(Seq::<Group>::empty(), sides, rolls);
    assert(!crate::groups::has_group(Seq::<Group>::empty(), sides));
    assert(groups == seq![(sides, rolls)]);
    assert(groups.drop_last() =~= Seq::<Group>::empty());
    assert(resolve(groups, Seq::<ModifierKind>::empty()).0 == groups);
    assert(groups_sum(groups.drop_last()) == 0);
    assert(groups_sum(groups) == rolls_sum(rolls));
    lemma_repeated_sum(rolls, v);
}

proof fn lemma_last_arithmetic(groups: Seq<Group>, chain: Seq<ModifierKind>, op: Arithmetic)
    requires
        forall|i: int| 0 <= i < chain.len() ==> !(#[trigger] chain[i] is Arithmetic),
    ensures
        resolve(groups, chain.push(ModifierKind::Arithmetic(op))).1 == Some(
            op.spec_apply(total_of(groups, chain)),
        ),
    decreases chain.len(),
{
    let longer = chain.push(ModifierKind::Arithmetic(op));
    if chain.len() > 0 {
        assert(longer.drop_first() =~= chain.drop_first().push(ModifierKind::Arithmetic(op)));
        assert(!(chain[0] is Arithmetic));
        assert forall|i: int| 0 <= i < chain.drop_first().len() implies !(
        #[trigger] chain.drop_first()[i] is Arithmetic) by {
            assert(chain.drop_first()[i] == chain[i + 1]);
        }
        match chain[0] {
            ModifierKind::Advantage(s) => {
                lemma_last_arithmetic(crate::groups::narrow(groups, s, true), chain.drop_first(), op);
            },
            ModifierKind::Disadvantage(s) => {
                lemma_last_arithmetic(crate::groups::narrow(groups, s, false), chain.drop_first(), op);
            },
            ModifierKind::Arithmetic(_) => {},
        }
    } else {
        assert(longer[0] == ModifierKind::Arithmetic(op));
    }
}

/// Attaching an arithmetic modifier to a set whose chain has none makes
/// `apply` return that operation on the set's total: `+ c`, `- c`, `* c`,
/// or division by `c` rounded down.
pub proof fn law_arithmetic_on_total(r: Rolls, op: Arithmetic)
    requires
        forall|i: int| 0 <= i < r@.chain.len() ==> !(#[trigger] r@.chain[i] is Arithmetic),
    ensures
        resolve(r@.groups, r@.chain.push(ModifierKind::Arithmetic(op))).1 == Some(
            op.spec_apply(total_of(r@.groups, r@.chain)),
        ),
{
    lemma_last_arithmetic(r@.groups, r@.chain, op);
}

/// Extending is associative: `(a + b) + c` and `a + (b + c)` hold the same
/// groups, in the same order, and the same chain.
pub proof fn law_extend_associative(a: Rolls, b: Rolls, c: Rolls)
    requires
        a.wf(),
        b.wf(),
        c.wf(),
    ensures
        merge(merge(a@.groups, b@.groups), c@.groups) == merge(
            a@.groups,
            merge(b@.groups, c@.groups),
        ),
        (a@.chain + b@.chain) + c@.chain == a@.chain + (b@.chain + c@.chain),
{
    let (ga, gb, gc) = (a@.groups, b@.groups, c@.groups);
    let ab = merge(ga, gb);
    let bc = merge(gb, gc);
    lemma_merge_unique(ga, gb);
    lemma_merge_unique(gb, gc);
    lemma_merge_unique(ab, gc);
    lemma_merge_unique(ga, bc);
    lemma_merge_sides(ga, gb);
    lemma_merge_sides(gb, gc);
    lemma_merge_sides(ab, gc);
    lemma_merge_sides(ga, bc);
    lemma_merge_sides_associative(sides_of(ga), sides_of(gb), sides_of(gc));
    assert forall|t: usize| rolls_for(merge(ab, gc), t) == rolls_for(merge(ga, bc), t) by {
        lemma_merge_rolls_for(ga, gb, t);
        lemma_merge_rolls_for(gb, gc, t);
        lemma_merge_rolls_for(ab, gc, t);
        lemma_merge_rolls_for(ga, bc, t);
        assert((rolls_for(ga, t) + rolls_for(gb, t)) + rolls_for(gc, t) =~= rolls_for(ga, t) + (
        rolls_for(gb, t) + rolls_for(gc, t)));
    }
    lemma_groups_ext(merge(ab, gc), merge(ga, bc));
    assert((a@.chain + b@.chain) + c@.chain =~= a@.chain + (b@.chain + c@.chain));
}

/// Extending is commutative on the rolls: `a + b` and `b + a` have the same
/// visible sum, the same dice, and the same rolls for each die up to order.
/// Their totals agree unless both sides carry modifiers: the chains are then
/// joined in the order of extension, which is the caller's to choose.
pub proof fn law_extend_commutative(a: Rolls, b: Rolls)
    requires
        a.wf(),
        b.wf(),
    ensures
        groups_sum(merge(a@.groups, b@.groups)) == groups_sum(merge(b@.groups, a@.groups)),
        sides_of(merge(a@.groups, b@.groups)).to_set() == sides_of(
            merge(b@.groups, a@.groups),
        ).to_set(),
        forall|t: usize|
            (#[trigger] rolls_for(merge(a@.groups, b@.groups), t)).to_multiset() == rolls_for(
                merge(b@.groups, a@.groups),
                t,
            ).to_multiset(),
        a@.chain.len() == 0 || b@.chain.len() == 0 ==> total_of(
            merge(a@.groups, b@.groups),
            a@.chain + b@.chain,
        ) == total_of(merge(b@.groups, a@.groups), b@.chain + a@.chain),
{
    let (ga, gb) = (a@.groups, b@.groups);
    lemma_merge_sum(ga, gb);
    lemma_merge_sum(gb, ga);
    assert forall|t: usize|
        (#[trigger] rolls_for(merge(ga, gb), t)).to_multiset() == rolls_for(
            merge(gb, ga),
            t,
        ).to_multiset() by {
        lemma_merge_rolls_for(ga, gb, t);
        lemma_merge_rolls_for(gb, ga, t);
        lemma_seq_union_to_multiset_commutative(rolls_for(ga, t), rolls_for(gb, t));
    }
    lemma_merge_unique(ga, gb);
    lemma_merge_unique(gb, ga);
    lemma_merge_sides(ga, gb);
    lemma_merge_sides(gb, ga);
    assert forall|x: usize|
        sides_of(merge(ga, gb)).contains(x) <==> sides_of(merge(gb, ga)).contains(x) by {
        crate::groups::lemma_merge_sides_contains_iff(sides_of(ga), sides_of(gb), x);
        crate::groups::lemma_merge_sides_contains_iff(sides_of(gb), sides_of(ga), x);
    }
    assert(sides_of(merge(ga, gb)).to_set() =~= sides_of(merge(gb, ga)).to_set());
    if a@.chain.len() == 0 || b@.chain.len() == 0 {
        assert(a@.chain + b@.chain =~= b@.chain + a@.chain);
        lemma_merge_alike(ga, gb);
        lemma_total_alike(merge(ga, gb), merge(gb, ga), a@.chain + b@.chain);
    }
}

/// Hidden rolls never count: the visible sum of a set, which its total and
/// its arithmetic modifiers use, is the same with every hidden roll left out.
pub proof fn law_hidden_rolls_never_count(r: Rolls)
    ensures
        groups_sum(r@.groups) == groups_sum(visible_only(r@.groups)),
{
    lemma_groups_sum_visible(r@.groups);
}

/// A creature with Dexterity 20 and expertise in a Dexterity skill, with the
/// base proficiency bonus of 2, totals its d20 roll plus 5 plus 4 on a check
/// of that skill.
pub proof fn law_expert_dexterity_check(c: Creature, skill: Skill, base: Rolls, d20: Roll)
    requires
        c.score_of(Ability::Dexterity) == Some(20u32),
        skill_base(skill) == Ability::Dexterity,
        c.proficiency_in(Proficiency::Checks(Check::Skill(skill))) == Some(ProficiencyType::Expertise),
        base@.groups == seq![(20usize, seq![d20])],
        base@.chain.len() == 0,
        !d20.is_hidden(),
    ensures
        c.check_bonus(Check::Skill(skill)) == 9,
        total_of(
            base@.groups,
            base@.chain.push(
                ModifierKind::Arithmetic(Arithmetic::Add(c.check_bonus(Check::Skill(skill)) as i32)),
            ),
        ) == d20.raw() + 5 + 4,
{
    assert(check_base(Check::Skill(skill)) == Ability::Dexterity);
    assert(modifier_for(20) == 5);
    assert(proficiency_term(Some(ProficiencyType::Expertise)) == 4);
    let chain = base@.chain.push(ModifierKind::Arithmetic(Arithmetic::Add(9)));
    assert(chain[0] == ModifierKind::Arithmetic(Arithmetic::Add(9)));
    let groups = base@.groups;
    assert(groups.drop_last() =~= Seq::<Group>::empty());
    assert(seq![d20].drop_last() =~= Seq::<Roll>::empty());
    assert(rolls_sum(seq![d20].drop_last()) == 0);
    assert(groups_sum(groups.drop_last()) == 0);
    assert(groups_sum(groups) == d20.raw());
}

} // verus!
