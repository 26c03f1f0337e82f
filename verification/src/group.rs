//! Totals grouped by label, as a mathematical model, and the laws of grouping.

use crate::totals::{
    lemma_totals_sum_associates, lemma_totals_sum_commutes, lemma_totals_sum_zero, totals_sum,
    totals_zero, ResourceTotals,
};
use vstd::prelude::*;

verus! {

/// Totals with the label of the group that they count under, or without one.
pub type Labelled = (Option<Seq<char>>, ResourceTotals);

/// The groups `m` with one more entry counted: added to the totals of its
/// group, or left out where it has no label.
pub open spec fn count_entry(m: Map<Seq<char>, ResourceTotals>, e: Labelled) -> Map<
    Seq<char>,
    ResourceTotals,
> {
    match e.0 {
        None => m,
        Some(k) => m.insert(
            k,
            if m.contains_key(k) {
                totals_sum(m[k], e.1)
            } else {
                e.1
            },
        ),
    }
}

/// The totals of each group of `ls`.
pub open spec fn grouped(ls: Seq<Labelled>) -> Map<Seq<char>, ResourceTotals>
    decreases ls.len(),
{
    if ls.len() == 0 {
        Map::empty()
    } else {
        count_entry(grouped(ls.drop_last()), ls.last())
    }
}

/// Two sets of groups put together: a group that is in both has the sum of
/// its two totals.
pub open spec fn combined(
    a: Map<Seq<char>, ResourceTotals>,
    b: Map<Seq<char>, ResourceTotals>,
) -> Map<Seq<char>, ResourceTotals> {
    Map::new(
        |k: Seq<char>| a.contains_key(k) || b.contains_key(k),
        |k: Seq<char>|
            if a.contains_key(k) && b.contains_key(k) {
                totals_sum(a[k], b[k])
            } else if a.contains_key(k) {
                a[k]
            } else {
                b[k]
            },
    )
}

/// The entries of `ls` that `mask` puts on the side `side`, in their order.
pub open spec fn part<A>(ls: Seq<A>, mask: Seq<bool>, side: bool) -> Seq<A>
    decreases ls.len(),
{
    if ls.len() == 0 {
        Seq::empty()
    } else if mask[ls.len() - 1] == side {
        part(ls.drop_last(), mask, side).push(ls.last())
    } else {
        part(ls.drop_last(), mask, side)
    }
}

/// The sum of all totals of `ls`, labelled or not.
pub open spec fn grand_total(ls: Seq<Labelled>) -> ResourceTotals
    decreases ls.len(),
{
    if ls.len() == 0 {
        totals_zero()
    } else {
        totals_sum(grand_total(ls.drop_last()), ls.last().1)
    }
}

/// Some entry of `ls` has the label `k`.
pub open spec fn has_label(ls: Seq<Labelled>, k: Seq<char>) -> bool {
    exists|i: int| 0 <= i < ls.len() && (#[trigger] ls[i]).0 == Some(k)
}

/// The sum of the totals of the entries of `ls` that have the label `k`.
pub open spec fn group_sum(ls: Seq<Labelled>, k: Seq<char>) -> ResourceTotals
    decreases ls.len(),
{
    if ls.len() == 0 {
        totals_zero()
    } else if ls.last().0 == Some(k) {
        totals_sum(group_sum(ls.drop_last(), k), ls.last().1)
    } else {
        group_sum(ls.drop_last(), k)
    }
}

proof fn lemma_has_label_step(ls: Seq<Labelled>, k: Seq<char>)
    requires
        ls.len() > 0,
    ensures
        has_label(ls, k) == (has_label(ls.drop_last(), k) || ls.last().0 == Some(k)),
{
    let front = ls.drop_last();
    if has_label(ls, k) {
        let i = choose|i: int| 0 <= i < ls.len() && (#[trigger] ls[i]).0 == Some(k);
        if i < ls.len() - 1 {
            assert(front[i] == ls[i]);
        }
    }
    if has_label(front, k) {
        let i = choose|i: int| 0 <= i < front.len() && (#[trigger] front[i]).0 == Some(k);
        assert(ls[i] == front[i]);
    }
    if ls.last().0 == Some(k) {
        assert(ls[ls.len() - 1].0 == Some(k));
    }
}

/// A label that no entry has counts for nothing.
proof fn lemma_group_sum_absent(ls: Seq<Labelled>, k: Seq<char>)
    requires
        !has_label(ls, k),
    ensures
        group_sum(ls, k) == totals_zero(),
    decreases ls.len(),
{
    if ls.len() > 0 {
        lemma_has_label_step(ls, k);
        lemma_group_sum_absent(ls.drop_last(), k);
    }
}

/// The groups of `ls` are its labels, and the totals of a group are the sum
/// of the totals of its entries.
pub proof fn lemma_grouped(ls: Seq<Labelled>, k: Seq<char>)
    ensures
        grouped(ls).contains_key(k) == has_label(ls, k),
        grouped(ls).contains_key(k) ==> grouped(ls)[k] == group_sum(ls, k),
    decreases ls.len(),
{
    if ls.len() > 0 {
        let front = ls.drop_last();
        lemma_has_label_step(ls, k);
        lemma_grouped(front, k);
        if ls.last().0 == Some(k) && !has_label(front, k) {
            lemma_group_sum_absent(front, k);
            lemma_totals_sum_zero(ls.last().1);
        }
    } else {
        assert(!has_label(ls, k));
    }
}

proof fn lemma_part_label(ls: Seq<Labelled>, mask: Seq<bool>, k: Seq<char>)
    requires
        mask.len() == ls.len(),
    ensures
        has_label(ls, k) == (has_label(part(ls, mask, true), k) || has_label(
            part(ls, mask, false),
            k,
        )),
        group_sum(ls, k) == totals_sum(
            group_sum(part(ls, mask, true), k),
            group_sum(part(ls, mask, false), k),
        ),
    decreases ls.len(),
{
    if ls.len() == 0 {
        assert(!has_label(ls, k));
        lemma_totals_sum_zero(totals_zero());
    } else {
        let front = ls.drop_last();
        let fmask = mask.drop_last();
        let e = ls.last();
        lemma_part_mask(front, mask, fmask, true);
        lemma_part_mask(front, mask, fmask, false);
        lemma_part_label(front, fmask, k);
        lemma_has_label_step(ls, k);
        let t = part(front, fmask, true);
        let f = part(front, fmask, false);
        if mask[ls.len() - 1] {
            assert(part(ls, mask, true) == t.push(e));
            assert(part(ls, mask, false) == f);
            lemma_has_label_step(t.push(e), k);
            assert(t.push(e).drop_last() =~= t);
            if e.0 == Some(k) {
                lemma_totals_sum_associates(group_sum(t, k), group_sum(f, k), e.1);
                lemma_totals_sum_commutes(group_sum(f, k), e.1);
                lemma_totals_sum_associates(group_sum(t, k), e.1, group_sum(f, k));
            }
        } else {
            assert(part(ls, mask, false) == f.push(e));
            assert(part(ls, mask, true) == t);
            lemma_has_label_step(f.push(e), k);
            assert(f.push(e).drop_last() =~= f);
            if e.0 == Some(k) {
                lemma_totals_sum_associates(group_sum(t, k), group_sum(f, k), e.1);
            }
        }
    }
}

/// Only the places of the mask that the entries reach matter.
proof fn lemma_part_mask<A>(ls: Seq<A>, m1: Seq<bool>, m2: Seq<bool>, side: bool)
    requires
        m1.len() >= ls.len(),
        m2.len() >= ls.len(),
        forall|i: int| 0 <= i < ls.len() ==> m1[i] == m2[i],
    ensures
        part(ls, m1, side) == part(ls, m2, side),
    decreases ls.len(),
{
    if ls.len() > 0 {
        lemma_part_mask(ls.drop_last(), m1, m2, side);
    }
}

/// However the entries are split into two parts, grouping each part and
/// putting the groups together gives the groups of the whole.
pub proof fn lemma_grouped_of_parts(ls: Seq<Labelled>, mask: Seq<bool>)
    requires
        mask.len() == ls.len(),
    ensures
        combined(grouped(part(ls, mask, true)), grouped(part(ls, mask, false))) == grouped(ls),
{
    let a = grouped(part(ls, mask, true));
    let b = grouped(part(ls, mask, false));
    let whole = grouped(ls);
    let both = combined(a, b);
    assert forall|k: Seq<char>|
        #![trigger both.dom().contains(k)]
        #![trigger whole.dom().contains(k)]
        both.dom().contains(k) == whole.dom().contains(k) && (both.dom().contains(k) ==> both[k]
            == whole[k]) by {
        lemma_grouped(ls, k);
        lemma_grouped(part(ls, mask, true), k);
        lemma_grouped(part(ls, mask, false), k);
        lemma_part_label(ls, mask, k);
        if !has_label(part(ls, mask, true), k) {
            lemma_group_sum_absent(part(ls, mask, true), k);
            lemma_totals_sum_zero(group_sum(part(ls, mask, false), k));
        }
        if !has_label(part(ls, mask, false), k) {
            lemma_group_sum_absent(part(ls, mask, false), k);
            lemma_totals_sum_zero(group_sum(part(ls, mask, true), k));
        }
    }
    assert(both =~= whole);
}

/// However the entries are split into two parts, the sums of the parts add
/// up to the sum of the whole.
pub proof fn lemma_grand_total_of_parts(ls: Seq<Labelled>, mask: Seq<bool>)
    requires
        mask.len() == ls.len(),
    ensures
        totals_sum(grand_total(part(ls, mask, true)), grand_total(part(ls, mask, false)))
            == grand_total(ls),
    decreases ls.len(),
{
    if ls.len() == 0 {
        lemma_totals_sum_zero(totals_zero());
    } else {
        let front = ls.drop_last();
        let fmask = mask.drop_last();
        let e = ls.last();
        lemma_part_mask(front, mask, fmask, true);
        lemma_part_mask(front, mask, fmask, false);
        lemma_grand_total_of_parts(front, fmask);
        let t = part(front, fmask, true);
        let f = part(front, fmask, false);
        if mask[ls.len() - 1] {
            assert(part(ls, mask, true) == t.push(e));
            assert(t.push(e).drop_last() =~= t);
            lemma_totals_sum_associates(grand_total(t), grand_total(f), e.1);
            lemma_totals_sum_commutes(grand_total(f), e.1);
            lemma_totals_sum_associates(grand_total(t), e.1, grand_total(f));
        } else {
            assert(part(ls, mask, false) == f.push(e));
            assert(f.push(e).drop_last() =~= f);
            lemma_totals_sum_associates(grand_total(t), grand_total(f), e.1);
        }
    }
}

} // verus!
