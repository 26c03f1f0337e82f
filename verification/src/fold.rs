//! Sums of resource totals by squad and by tribe.

use crate::error::{Attribution, Error};
use crate::group::{
    combined, count_entry, group_sum, grouped, has_label, lemma_grouped, lemma_grouped_of_parts,
    part, Labelled,
};
use crate::manifest::{view_of_text, Manifest};
use crate::strmap::{keys_ascend, to_map, StrMap};
use crate::totals::ResourceTotals;
use vstd::prelude::*;

verus! {

/// The squad that owns the service of `m`, if the manifest names one.
pub open spec fn squad_of(m: Manifest) -> Option<Seq<char>> {
    match m.metadata {
        Some(md) => view_of_text(md.squad),
        None => None,
    }
}

/// The tribe that owns the service of `m`, if the manifest names one.
pub open spec fn tribe_of(m: Manifest) -> Option<Seq<char>> {
    match m.metadata {
        Some(md) => view_of_text(md.tribe),
        None => None,
    }
}

/// The totals of `reqs`, each with the squad that it counts under.
pub open spec fn squad_labels(reqs: Seq<(Manifest, ResourceTotals)>) -> Seq<Labelled> {
    Seq::new(reqs.len(), |i: int| (squad_of(reqs[i].0), reqs[i].1))
}

/// The totals of `reqs`, each with the tribe that it counts under.
pub open spec fn tribe_labels(reqs: Seq<(Manifest, ResourceTotals)>) -> Seq<Labelled> {
    Seq::new(reqs.len(), |i: int| (tribe_of(reqs[i].0), reqs[i].1))
}

/// Why the manifest at place `i` cannot be counted under a squad, if it cannot.
pub open spec fn squad_missing(m: Manifest, i: int) -> Option<Attribution> {
    match m.metadata {
        None => Some(Attribution::NoMetadata(i as usize)),
        Some(md) => if md.squad is None {
            Some(Attribution::NoSquad(i as usize))
        } else {
            None
        },
    }
}

/// The first manifest from place `i` on that cannot be counted under a squad.
pub open spec fn first_unattributed(reqs: Seq<(Manifest, ResourceTotals)>, i: int) -> Option<
    Attribution,
>
    decreases reqs.len() - i,
{
    if i < 0 || i >= reqs.len() {
        None
    } else if squad_missing(reqs[i].0, i) is Some {
        squad_missing(reqs[i].0, i)
    } else {
        first_unattributed(reqs, i + 1)
    }
}

/// The names of the manifests among the first `n` that name no tribe, in
/// their order.
pub open spec fn orphan_names(reqs: Seq<(Manifest, ResourceTotals)>, n: int) -> Seq<String>
    decreases n,
{
    if n <= 0 {
        Seq::empty()
    } else if tribe_of(reqs[n - 1].0) is None {
        orphan_names(reqs, n - 1).push(reqs[n - 1].0.name)
    } else {
        orphan_names(reqs, n - 1)
    }
}

/// Totals by tribe, and the manifests that they leave out.
#[derive(Clone, Debug, PartialEq, Eq)]
pub struct TribeFold {
    /// The totals of each tribe, in dictionary order of the tribes.
    pub rows: Vec<(String, ResourceTotals)>,
    /// The names of the manifests that name no tribe and so are counted
    /// under none, for the caller to warn about.
    pub orphans: Vec<String>,
}

/// Counts `t` under `label` in `acc`.
fn count_under(acc: &mut StrMap<ResourceTotals>, label: &String, t: &ResourceTotals)
    ensures
        final(acc)@ == count_entry(old(acc)@, (Some(label@), *t)),
{
    let sum = match acc.get(label.as_str()) {
        Some(have) => have.plus(t),
        None => *t,
    };
    acc.insert(label.clone(), sum);
}

/// Sums the totals of the manifests of each squad. The rows come in
/// dictionary order of the squads. A manifest without a squad is an error.
pub fn fold_manifests_by_squad(reqs: Vec<(Manifest, ResourceTotals)>) -> (r: Result<
    Vec<(String, ResourceTotals)>,
    Error,
>)
    ensures
        match r {
            Ok(rows) => first_unattributed(reqs@, 0) is None && keys_ascend(rows@) && to_map(rows@)
                == grouped(squad_labels(reqs@)),
            Err(e) => first_unattributed(reqs@, 0) matches Some(a) && e == Error::Attribution(a),
        },
{
    let ghost labels = squad_labels(reqs@);
    let mut acc: StrMap<ResourceTotals> = StrMap::new();
    let mut i: usize = 0;
    assert(labels.take(0) =~= Seq::<Labelled>::empty());
    while i < reqs.len()
        invariant
            i <= reqs.len(),
            labels == squad_labels(reqs@),
            first_unattributed(reqs@, 0) == first_unattributed(reqs@, i as int),
            acc@ == grouped(labels.take(i as int)),
        decreases reqs.len() - i,
    {
        let squad = match &reqs[i].0.metadata {
            None => {
                return Err(Error::Attribution(Attribution::NoMetadata(i)));
            },
            Some(md) => match &md.squad {
                None => {
                    return Err(Error::Attribution(Attribution::NoSquad(i)));
                },
                Some(s) => s,
            },
        };
        proof {
            assert(labels.take(i + 1).drop_last() =~= labels.take(i as int));
            assert(labels.take(i + 1).last() == (Some(squad@), reqs@[i as int].1));
        }
        count_under(&mut acc, squad, &reqs[i].1);
        i += 1;
    }
    assert(labels.take(labels.len() as int) =~= labels);
    Ok(acc.into_entries())
}

/// Sums the totals of the manifests of each tribe. The rows come in
/// dictionary order of the tribes. A manifest without a tribe is counted
/// under none, and named among the orphans.
pub fn fold_manifests_by_tribe(reqs: Vec<(Manifest, ResourceTotals)>) -> (r: TribeFold)
    ensures
        keys_ascend(r.rows@),
        to_map(r.rows@) == grouped(tribe_labels(reqs@)),
        r.orphans@ == orphan_names(reqs@, reqs@.len() as int),
{
    let ghost labels = tribe_labels(reqs@);
    let mut acc: StrMap<ResourceTotals> = StrMap::new();
    let mut orphans: Vec<String> = Vec::new();
    let mut i: usize = 0;
    assert(labels.take(0) =~= Seq::<Labelled>::empty());
    while i < reqs.len()
        invariant
            i <= reqs.len(),
            labels == tribe_labels(reqs@),
            acc@ == grouped(labels.take(i as int)),
            orphans@ == orphan_names(reqs@, i as int),
        decreases reqs.len() - i,
    {
        proof {
            assert(labels.take(i + 1).drop_last() =~= labels.take(i as int));
            assert(labels.take(i + 1).last() == (tribe_of(reqs@[i as int].0), reqs@[i as int].1));
        }
        let tribe = match &reqs[i].0.metadata {
            None => None,
            Some(md) => match &md.tribe {
                None => None,
                Some(t) => Some(t),
            },
        };
        match tribe {
            Some(t) => {
                count_under(&mut acc, t, &reqs[i].1);
            },
            None => {
                orphans.push(reqs[i].0.name.clone());
            },
        }
        i += 1;
    }
    assert(labels.take(labels.len() as int) =~= labels);
    TribeFold { rows: acc.into_entries(), orphans }
}

/// The labels of a part of the rows are that part of the labels of the rows.
proof fn lemma_labels_of_part(
    reqs: Seq<(Manifest, ResourceTotals)>,
    mask: Seq<bool>,
    side: bool,
)
    requires
        mask.len() >= reqs.len(),
    ensures
        squad_labels(part(reqs, mask, side)) == part(squad_labels(reqs), mask, side),
        tribe_labels(part(reqs, mask, side)) == part(tribe_labels(reqs), mask, side),
    decreases reqs.len(),
{
    if reqs.len() == 0 {
        assert(squad_labels(part(reqs, mask, side)) =~= part(squad_labels(reqs), mask, side));
        assert(tribe_labels(part(reqs, mask, side)) =~= part(tribe_labels(reqs), mask, side));
    } else {
        let front = reqs.drop_last();
        lemma_labels_of_part(front, mask, side);
        assert(squad_labels(reqs).drop_last() =~= squad_labels(front));
        assert(tribe_labels(reqs).drop_last() =~= tribe_labels(front));
        assert(squad_labels(part(reqs, mask, side)) =~= part(squad_labels(reqs), mask, side));
        assert(tribe_labels(part(reqs, mask, side)) =~= part(tribe_labels(reqs), mask, side));
    }
}

/// However the rows are split into two parts, summing each part by squad and
/// putting the sums together gives the sums by squad of all rows; and so for
/// the sums by tribe.
pub proof fn lemma_fold_of_parts(reqs: Seq<(Manifest, ResourceTotals)>, mask: Seq<bool>)
    requires
        mask.len() == reqs.len(),
    ensures
        combined(
            grouped(squad_labels(part(reqs, mask, true))),
            grouped(squad_labels(part(reqs, mask, false))),
        ) == grouped(squad_labels(reqs)),
        combined(
            grouped(tribe_labels(part(reqs, mask, true))),
            grouped(tribe_labels(part(reqs, mask, false))),
        ) == grouped(tribe_labels(reqs)),
{
    lemma_labels_of_part(reqs, mask, true);
    lemma_labels_of_part(reqs, mask, false);
    lemma_grouped_of_parts(squad_labels(reqs), mask);
    lemma_grouped_of_parts(tribe_labels(reqs), mask);
}

/// Taking out an entry without a label changes no group.
proof fn lemma_group_sum_without(ls: Seq<Labelled>, i: int, k: Seq<char>)
    requires
        0 <= i < ls.len(),
        ls[i].0 is None,
    ensures
        group_sum(ls.remove(i), k) == group_sum(ls, k),
        has_label(ls.remove(i), k) == has_label(ls, k),
    decreases ls.len(),
{
    let rest = ls.remove(i);
    if has_label(ls, k) {
        let j = choose|j: int| 0 <= j < ls.len() && (#[trigger] ls[j]).0 == Some(k);
        if j < i {
            assert(rest[j] == ls[j]);
        } else {
            assert(rest[j - 1] == ls[j]);
        }
    }
    if has_label(rest, k) {
        let j = choose|j: int| 0 <= j < rest.len() && (#[trigger] rest[j]).0 == Some(k);
        if j < i {
            assert(ls[j] == rest[j]);
        } else {
            assert(ls[j + 1] == rest[j]);
        }
    }
    if i == ls.len() - 1 {
        assert(rest =~= ls.drop_last());
    } else {
        assert(rest.drop_last() =~= ls.drop_last().remove(i));
        assert(rest.last() == ls.last());
        lemma_group_sum_without(ls.drop_last(), i, k);
    }
}

/// The names of the orphans among the first `n` manifests hold the name of
/// each of them that names no tribe.
proof fn lemma_orphan_named(reqs: Seq<(Manifest, ResourceTotals)>, n: int, i: int)
    requires
        0 <= i < n <= reqs.len(),
        tribe_of(reqs[i].0) is None,
    ensures
        orphan_names(reqs, n).contains(reqs[i].0.name),
    decreases n,
{
    if i == n - 1 {
        let prev = orphan_names(reqs, n - 1);
        assert(prev.push(reqs[i].0.name)[prev.len() as int] == reqs[i].0.name);
    } else {
        lemma_orphan_named(reqs, n - 1, i);
        let prev = orphan_names(reqs, n - 1);
        let j = choose|j: int| 0 <= j < prev.len() && prev[j] == reqs[i].0.name;
        if tribe_of(reqs[n - 1].0) is None {
            assert(prev.push(reqs[n - 1].0.name)[j] == reqs[i].0.name);
        }
    }
}

/// A manifest that names a squad but no tribe is counted under its squad,
/// adds nothing to the totals of any tribe, and is named among the orphans.
pub proof fn lemma_tribe_exclusion(reqs: Seq<(Manifest, ResourceTotals)>, i: int)
    requires
        0 <= i < reqs.len(),
        squad_of(reqs[i].0) is Some,
        tribe_of(reqs[i].0) is None,
    ensures
        grouped(squad_labels(reqs)).contains_key(squad_of(reqs[i].0)->0),
        grouped(tribe_labels(reqs)) == grouped(tribe_labels(reqs.remove(i))),
        orphan_names(reqs, reqs.len() as int).contains(reqs[i].0.name),
{
    let s = squad_of(reqs[i].0)->0;
    lemma_grouped(squad_labels(reqs), s);
    assert(squad_labels(reqs)[i].0 == Some(s));
    lemma_orphan_named(reqs, reqs.len() as int, i);
    let with = tribe_labels(reqs);
    let without = tribe_labels(reqs.remove(i));
    assert(without =~= with.remove(i));
    let a = grouped(with);
    let b = grouped(without);
    assert forall|k: Seq<char>|
        #![trigger a.dom().contains(k)]
        #![trigger b.dom().contains(k)]
        a.dom().contains(k) == b.dom().contains(k) && (a.dom().contains(k) ==> a[k] == b[k]) by {
        lemma_grouped(with, k);
        lemma_grouped(without, k);
        lemma_group_sum_without(with, i, k);
    }
    assert(a =~= b);
}

} // verus!
