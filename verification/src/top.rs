//! Resource totals of the services of a region and of the world.

use crate::error::Error;
use crate::fold::{
    first_unattributed, fold_manifests_by_squad, fold_manifests_by_tribe, orphan_names,
    squad_labels, tribe_labels, TribeFold,
};
use crate::group::grouped;
use crate::manifest::Manifest;
use crate::order::{in_order, sort_resources, sorted_rows, ResourceOrder};
use crate::strmap::{keys_ascend, to_map};
use crate::totals::{resource_totals, totals_sum, totals_zero, ResourceTotals};
use vstd::prelude::*;

verus! {

/// The manifests `ms[0..n)`, each with its resource totals; the error of the
/// first whose totals cannot be computed.
pub open spec fn region_rows(ms: Seq<Manifest>, n: int) -> Result<
    Seq<(Manifest, ResourceTotals)>,
    Error,
>
    decreases n,
{
    if n <= 0 {
        Ok(Seq::empty())
    } else {
        match region_rows(ms, n - 1) {
            Err(e) => Err(e),
            Ok(rows) => match resource_totals(ms[n - 1]) {
                Err(e) => Err(e),
                Ok(t) => Ok(rows.push((ms[n - 1], t))),
            },
        }
    }
}

/// A service runs in the region of the manifest `m`: it is neither switched
/// off nor hosted elsewhere.
pub open spec fn enabled(m: Manifest) -> bool {
    !m.disabled && !m.external
}

/// The sum of the totals of the enabled manifests among `vs[0..n)`; the
/// error of the first of them whose totals cannot be computed.
pub open spec fn world_sum(vs: Seq<Manifest>, n: int) -> Result<ResourceTotals, Error>
    decreases n,
{
    if n <= 0 {
        Ok(totals_zero())
    } else {
        match world_sum(vs, n - 1) {
            Err(e) => Err(e),
            Ok(acc) => if enabled(vs[n - 1]) {
                match resource_totals(vs[n - 1]) {
                    Err(e) => Err(e),
                    Ok(t) => Ok(totals_sum(acc, t)),
                }
            } else {
                Ok(acc)
            },
        }
    }
}

/// The place of the first enabled manifest from place `i` on.
pub open spec fn first_enabled(vs: Seq<Manifest>, i: int) -> Option<int>
    decreases vs.len() - i,
{
    if i < 0 || i >= vs.len() {
        None
    } else if enabled(vs[i]) {
        Some(i)
    } else {
        first_enabled(vs, i + 1)
    }
}

/// The row of a service in the world, given its manifests in its regions:
/// the first enabled manifest stands for the service, with the sum of the
/// totals of all enabled manifests. A service that is enabled nowhere has no
/// row.
pub open spec fn world_row(vs: Seq<Manifest>) -> Result<Option<(Manifest, ResourceTotals)>, Error> {
    match world_sum(vs, vs.len() as int) {
        Err(e) => Err(e),
        Ok(t) => match first_enabled(vs, 0) {
            None => Ok(None),
            Some(i) => Ok(Some((vs[i], t))),
        },
    }
}

/// The rows of the services `services[0..n)` in the world; the error of the
/// first service whose row cannot be computed.
pub open spec fn world_rows(services: Seq<Vec<Manifest>>, n: int) -> Result<
    Seq<(Manifest, ResourceTotals)>,
    Error,
>
    decreases n,
{
    if n <= 0 {
        Ok(Seq::empty())
    } else {
        match world_rows(services, n - 1) {
            Err(e) => Err(e),
            Ok(rows) => match world_row(services[n - 1]@) {
                Err(e) => Err(e),
                Ok(None) => Ok(rows),
                Ok(Some(row)) => Ok(rows.push(row)),
            },
        }
    }
}

proof fn lemma_world_sum_error_stays(vs: Seq<Manifest>, n: int, m: int)
    requires
        n <= m,
        world_sum(vs, n) is Err,
    ensures
        world_sum(vs, m) == world_sum(vs, n),
    decreases m - n,
{
    if n < m {
        lemma_world_sum_error_stays(vs, n, m - 1);
    }
}

proof fn lemma_region_rows_error_stays(ms: Seq<Manifest>, n: int, m: int)
    requires
        n <= m,
        region_rows(ms, n) is Err,
    ensures
        region_rows(ms, m) == region_rows(ms, n),
    decreases m - n,
{
    if n < m {
        lemma_region_rows_error_stays(ms, n, m - 1);
    }
}

proof fn lemma_world_rows_error_stays(services: Seq<Vec<Manifest>>, n: int, m: int)
    requires
        n <= m,
        world_rows(services, n) is Err,
    ensures
        world_rows(services, m) == world_rows(services, n),
    decreases m - n,
{
    if n < m {
        lemma_world_rows_error_stays(services, n, m - 1);
    }
}

/// A service that is enabled in two regions with the same totals counts
/// twice in the world, and the manifest of the first region stands for it.
pub proof fn lemma_world_counts_each_region(a: Manifest, b: Manifest, t: ResourceTotals)
    requires
        enabled(a),
        enabled(b),
        resource_totals(a) == Ok::<ResourceTotals, Error>(t),
        resource_totals(b) == Ok::<ResourceTotals, Error>(t),
    ensures
        world_row(seq![a, b]) == Ok::<Option<(Manifest, ResourceTotals)>, Error>(
            Some((a, totals_sum(t, t))),
        ),
        2 * t.base.requests.cpu <= u64::MAX ==> totals_sum(t, t).base.requests.cpu == 2
            * t.base.requests.cpu,
        2 * t.base.requests.memory <= u64::MAX ==> totals_sum(t, t).base.requests.memory == 2
            * t.base.requests.memory,
{
    let vs = seq![a, b];
    reveal_with_fuel(world_sum, 3);
    assert(vs[0] == a && vs[1] == b);
    assert(world_sum(vs, 0) == Ok::<ResourceTotals, Error>(totals_zero()));
    assert(world_sum(vs, 1) == Ok::<ResourceTotals, Error>(totals_sum(totals_zero(), t)));
    assert(totals_sum(totals_zero(), t) == t);
    assert(world_sum(vs, 2) == Ok::<ResourceTotals, Error>(totals_sum(t, t)));
}

/// Computes the totals of each manifest of a region.
pub fn calculate_manifest_requests(manifests: Vec<Manifest>) -> (r: Result<
    Vec<(Manifest, ResourceTotals)>,
    Error,
>)
    ensures
        match r {
            Ok(rows) => region_rows(manifests@, manifests@.len() as int) == Ok::<
                Seq<(Manifest, ResourceTotals)>,
                Error,
            >(rows@),
            Err(e) => region_rows(manifests@, manifests@.len() as int) == Err::<
                Seq<(Manifest, ResourceTotals)>,
                Error,
            >(e),
        },
{
    let ghost all = manifests@;
    let mut rows: Vec<(Manifest, ResourceTotals)> = Vec::new();
    for mf in it: manifests
        invariant
            it.seq() == all,
            region_rows(all, it.index() as int) == Ok::<Seq<(Manifest, ResourceTotals)>, Error>(
                rows@,
            ),
    {
        match mf.compute_resource_totals() {
            Ok(t) => {
                rows.push((mf, t));
            },
            Err(e) => {
                proof {
                    lemma_region_rows_error_stays(all, it.index() + 1, all.len() as int);
                }
                return Err(e);
            },
        }
    }
    Ok(rows)
}

/// Computes the row of a service in the world from its manifests in its
/// regions.
pub fn calculate_world_row(variants: Vec<Manifest>) -> (r: Result<
    Option<(Manifest, ResourceTotals)>,
    Error,
>)
    ensures
        r == world_row(variants@),
{
    let ghost all = variants@;
    let mut sum = ResourceTotals::zero();
    let mut first: Option<Manifest> = None;
    for mf in it: variants
        invariant
            it.seq() == all,
            world_sum(all, it.index() as int) == Ok::<ResourceTotals, Error>(sum),
            match first {
                None => first_enabled(all, 0) == first_enabled(all, it.index() as int),
                Some(f) => first_enabled(all, 0) matches Some(j) && 0 <= j < all.len() && f
                    == all[j],
            },
    {
        if !mf.disabled && !mf.external {
            match mf.compute_resource_totals() {
                Ok(t) => {
                    sum = sum.plus(&t);
                },
                Err(e) => {
                    proof {
                        lemma_world_sum_error_stays(all, it.index() + 1, all.len() as int);
                    }
                    return Err(e);
                },
            }
            if first.is_none() {
                first = Some(mf);
            }
        }
    }
    match first {
        None => Ok(None),
        Some(f) => Ok(Some((f, sum))),
    }
}

/// Computes the rows of all services in the world, each from its manifests
/// in its regions.
pub fn calculate_manifest_requests_world(services: Vec<Vec<Manifest>>) -> (r: Result<
    Vec<(Manifest, ResourceTotals)>,
    Error,
>)
    ensures
        match r {
            Ok(rows) => world_rows(services@, services@.len() as int) == Ok::<
                Seq<(Manifest, ResourceTotals)>,
                Error,
            >(rows@),
            Err(e) => world_rows(services@, services@.len() as int) == Err::<
                Seq<(Manifest, ResourceTotals)>,
                Error,
            >(e),
        },
{
    let ghost all = services@;
    let mut rows: Vec<(Manifest, ResourceTotals)> = Vec::new();
    for variants in it: services
        invariant
            it.seq() == all,
            world_rows(all, it.index() as int) == Ok::<Seq<(Manifest, ResourceTotals)>, Error>(
                rows@,
            ),
    {
        match calculate_world_row(variants) {
            Ok(Some(row)) => {
                rows.push(row);
            },
            Ok(None) => {},
            Err(e) => {
                proof {
                    lemma_world_rows_error_stays(all, it.index() + 1, all.len() as int);
                }
                return Err(e);
            },
        }
    }
    Ok(rows)
}

/// A manifest that was left out of the rows because its totals cannot be
/// computed.
#[derive(Clone, Copy, Debug, PartialEq, Eq, Structural)]
pub struct Skipped {
    /// The place of the service among the services.
    pub service: usize,
    /// The place of the manifest among the manifests of the service.
    pub variant: usize,
    /// Why the totals cannot be computed.
    pub error: Error,
}

/// Rows, and what was left out of them.
#[derive(Clone, Debug, PartialEq, Eq)]
pub struct Isolated {
    pub rows: Vec<(Manifest, ResourceTotals)>,
    pub skipped: Vec<Skipped>,
}

/// The manifest `m` counts in the world: its service runs in its region, and
/// its totals can be computed.
pub open spec fn counts(m: Manifest) -> bool {
    enabled(m) && resource_totals(m) is Ok
}

/// The sum of the totals of the manifests among `vs[0..n)` that count.
pub open spec fn counted_sum(vs: Seq<Manifest>, n: int) -> ResourceTotals
    decreases n,
{
    if n <= 0 {
        totals_zero()
    } else if counts(vs[n - 1]) {
        totals_sum(counted_sum(vs, n - 1), resource_totals(vs[n - 1])->Ok_0)
    } else {
        counted_sum(vs, n - 1)
    }
}

/// The place of the first manifest from place `i` on that counts.
pub open spec fn first_counted(vs: Seq<Manifest>, i: int) -> Option<int>
    decreases vs.len() - i,
{
    if i < 0 || i >= vs.len() {
        None
    } else if counts(vs[i]) {
        Some(i)
    } else {
        first_counted(vs, i + 1)
    }
}

/// The enabled manifests among `vs[0..n)` whose totals cannot be computed,
/// as manifests of the service at place `service`.
pub open spec fn skipped_of(vs: Seq<Manifest>, service: usize, n: int) -> Seq<Skipped>
    decreases n,
{
    if n <= 0 {
        Seq::empty()
    } else if enabled(vs[n - 1]) && resource_totals(vs[n - 1]) is Err {
        skipped_of(vs, service, n - 1).push(
            Skipped {
                service,
                variant: (n - 1) as usize,
                error: resource_totals(vs[n - 1])->Err_0,
            },
        )
    } else {
        skipped_of(vs, service, n - 1)
    }
}

/// The row of a service in the world where a manifest whose totals cannot be
/// computed is left out: the first manifest that counts stands for the
/// service, with the sum of the totals of all that count.
pub open spec fn isolated_row(vs: Seq<Manifest>) -> Option<(Manifest, ResourceTotals)> {
    match first_counted(vs, 0) {
        None => None,
        Some(i) => Some((vs[i], counted_sum(vs, vs.len() as int))),
    }
}

/// The rows of the services `services[0..n)` in the world, each manifest
/// that fails left out.
pub open spec fn isolated_rows(services: Seq<Vec<Manifest>>, n: int) -> Seq<
    (Manifest, ResourceTotals),
>
    decreases n,
{
    if n <= 0 {
        Seq::empty()
    } else {
        match isolated_row(services[n - 1]@) {
            None => isolated_rows(services, n - 1),
            Some(row) => isolated_rows(services, n - 1).push(row),
        }
    }
}

/// What is left out of the rows of the services `services[0..n)`.
pub open spec fn isolated_skips(services: Seq<Vec<Manifest>>, n: int) -> Seq<Skipped>
    decreases n,
{
    if n <= 0 {
        Seq::empty()
    } else {
        isolated_skips(services, n - 1) + skipped_of(
            services[n - 1]@,
            (n - 1) as usize,
            services[n - 1]@.len() as int,
        )
    }
}

/// Where the totals of every enabled manifest can be computed, leaving out
/// what fails leaves out nothing.
pub proof fn lemma_isolated_row_when_all_count(vs: Seq<Manifest>, service: usize)
    requires
        world_row(vs) is Ok,
    ensures
        isolated_row(vs) == world_row(vs)->Ok_0,
        skipped_of(vs, service, vs.len() as int) == Seq::<Skipped>::empty(),
{
    lemma_all_count(vs, service, vs.len() as int);
    lemma_first_counted(vs, 0);
}

proof fn lemma_all_count(vs: Seq<Manifest>, service: usize, n: int)
    requires
        0 <= n <= vs.len(),
        world_sum(vs, vs.len() as int) is Ok,
    ensures
        world_sum(vs, n) == Ok::<ResourceTotals, Error>(counted_sum(vs, n)),
        skipped_of(vs, service, n) == Seq::<Skipped>::empty(),
        forall|i: int| 0 <= i < n && enabled(vs[i]) ==> resource_totals(#[trigger] vs[i]) is Ok,
    decreases n,
{
    if world_sum(vs, n) is Err {
        lemma_world_sum_error_stays(vs, n, vs.len() as int);
    }
    if n > 0 {
        lemma_all_count(vs, service, n - 1);
    }
}

proof fn lemma_first_counted(vs: Seq<Manifest>, i: int)
    requires
        0 <= i <= vs.len(),
        forall|j: int|
            0 <= j < vs.len() && enabled(vs[j]) ==> resource_totals(#[trigger] vs[j]) is Ok,
    ensures
        first_counted(vs, i) == first_enabled(vs, i),
    decreases vs.len() - i,
{
    if i < vs.len() {
        lemma_first_counted(vs, i + 1);
    }
}

/// Computes the row of the service at place `service` in the world from its
/// manifests in its regions, leaving out each manifest whose totals cannot be
/// computed.
pub fn calculate_world_row_isolated(variants: Vec<Manifest>, service: usize) -> (r: (
    Option<(Manifest, ResourceTotals)>,
    Vec<Skipped>,
))
    ensures
        r.0 == isolated_row(variants@),
        r.1@ == skipped_of(variants@, service, variants@.len() as int),
{
    let ghost all = variants@;
    let mut sum = ResourceTotals::zero();
    let mut first: Option<Manifest> = None;
    let mut skipped: Vec<Skipped> = Vec::new();
    let mut at: usize = 0;
    let total = variants.len();
    for mf in it: variants
        invariant
            it.seq() == all,
            all.len() == total,
            at == it.index(),
            sum == counted_sum(all, it.index() as int),
            skipped@ == skipped_of(all, service, it.index() as int),
            match first {
                None => first_counted(all, 0) == first_counted(all, it.index() as int),
                Some(f) => first_counted(all, 0) matches Some(j) && 0 <= j < all.len() && f
                    == all[j],
            },
    {
        if !mf.disabled && !mf.external {
            match mf.compute_resource_totals() {
                Ok(t) => {
                    sum = sum.plus(&t);
                    if first.is_none() {
                        first = Some(mf);
                    }
                },
                Err(e) => {
                    skipped.push(Skipped { service, variant: at, error: e });
                },
            }
        }
        at += 1;
    }
    match first {
        None => (None, skipped),
        Some(f) => (Some((f, sum)), skipped),
    }
}

/// Computes the rows of all services in the world, leaving out each manifest
/// whose totals cannot be computed, and says what was left out.
pub fn calculate_manifest_requests_world_isolated(services: Vec<Vec<Manifest>>) -> (r: Isolated)
    ensures
        r.rows@ == isolated_rows(services@, services@.len() as int),
        r.skipped@ == isolated_skips(services@, services@.len() as int),
{
    let ghost all = services@;
    let mut rows: Vec<(Manifest, ResourceTotals)> = Vec::new();
    let mut skipped: Vec<Skipped> = Vec::new();
    let mut at: usize = 0;
    let total = services.len();
    for variants in it: services
        invariant
            it.seq() == all,
            all.len() == total,
            at == it.index(),
            rows@ == isolated_rows(all, it.index() as int),
            skipped@ == isolated_skips(all, it.index() as int),
    {
        let (row, mut more) = calculate_world_row_isolated(variants, at);
        if let Some(row) = row {
            rows.push(row);
        }
        skipped.append(&mut more);
        at += 1;
    }
    Isolated { rows, skipped }
}

/// The manifests among `ms[0..n)` whose totals can be computed, each with
/// its totals.
pub open spec fn isolated_region_rows(ms: Seq<Manifest>, n: int) -> Seq<(Manifest, ResourceTotals)>
    decreases n,
{
    if n <= 0 {
        Seq::empty()
    } else {
        match resource_totals(ms[n - 1]) {
            Ok(t) => isolated_region_rows(ms, n - 1).push((ms[n - 1], t)),
            Err(_) => isolated_region_rows(ms, n - 1),
        }
    }
}

/// The manifests among `ms[0..n)` whose totals cannot be computed.
pub open spec fn isolated_region_skips(ms: Seq<Manifest>, n: int) -> Seq<Skipped>
    decreases n,
{
    if n <= 0 {
        Seq::empty()
    } else {
        match resource_totals(ms[n - 1]) {
            Ok(_) => isolated_region_skips(ms, n - 1),
            Err(e) => isolated_region_skips(ms, n - 1).push(
                Skipped { service: (n - 1) as usize, variant: 0, error: e },
            ),
        }
    }
}

/// Computes the totals of each manifest of a region, leaving out each
/// manifest whose totals cannot be computed, and says what was left out.
pub fn calculate_manifest_requests_isolated(manifests: Vec<Manifest>) -> (r: Isolated)
    ensures
        r.rows@ == isolated_region_rows(manifests@, manifests@.len() as int),
        r.skipped@ == isolated_region_skips(manifests@, manifests@.len() as int),
{
    let ghost all = manifests@;
    let mut rows: Vec<(Manifest, ResourceTotals)> = Vec::new();
    let mut skipped: Vec<Skipped> = Vec::new();
    let mut at: usize = 0;
    let total = manifests.len();
    for mf in it: manifests
        invariant
            it.seq() == all,
            all.len() == total,
            at == it.index(),
            rows@ == isolated_region_rows(all, it.index() as int),
            skipped@ == isolated_region_skips(all, it.index() as int),
    {
        match mf.compute_resource_totals() {
            Ok(t) => {
                rows.push((mf, t));
            },
            Err(e) => {
                skipped.push(Skipped { service: at, variant: 0, error: e });
            },
        }
        at += 1;
    }
    Isolated { rows, skipped }
}

/// The rows of all services in the world, sorted: the totals of a service
/// are the sum over the regions that it is enabled in.
pub fn world_requests(order: ResourceOrder, ub: bool, services: Vec<Vec<Manifest>>) -> (r: Result<
    Vec<(Manifest, ResourceTotals)>,
    Error,
>)
    ensures
        match r {
            Ok(out) => world_rows(services@, services@.len() as int) matches Ok(rows) && out@
                == sorted_rows(rows, order, ub, rows.len() as int) && out@.to_multiset()
                == rows.to_multiset() && in_order(out@, order, ub),
            Err(e) => world_rows(services@, services@.len() as int) == Err::<
                Seq<(Manifest, ResourceTotals)>,
                Error,
            >(e),
        },
{
    let rows = calculate_manifest_requests_world(services)?;
    Ok(sort_resources(rows, order, ub))
}

/// The rows of the services of one region, sorted.
pub fn region_requests(order: ResourceOrder, ub: bool, manifests: Vec<Manifest>) -> (r: Result<
    Vec<(Manifest, ResourceTotals)>,
    Error,
>)
    ensures
        match r {
            Ok(out) => region_rows(manifests@, manifests@.len() as int) matches Ok(rows) && out@
                == sorted_rows(rows, order, ub, rows.len() as int) && out@.to_multiset()
                == rows.to_multiset() && in_order(out@, order, ub),
            Err(e) => region_rows(manifests@, manifests@.len() as int) == Err::<
                Seq<(Manifest, ResourceTotals)>,
                Error,
            >(e),
        },
{
    let rows = calculate_manifest_requests(manifests)?;
    Ok(sort_resources(rows, order, ub))
}

/// What sorting the totals by squad of `rows` gives: the error of the first
/// manifest without a squad, or the totals of each squad, taken in
/// dictionary order of the squads and then sorted.
pub open spec fn is_squad_top(
    rows: Seq<(Manifest, ResourceTotals)>,
    order: ResourceOrder,
    ub: bool,
    r: Result<Vec<(String, ResourceTotals)>, Error>,
) -> bool {
    match r {
        Ok(out) => first_unattributed(rows, 0) is None && in_order(out@, order, ub) && exists|
            groups: Seq<(String, ResourceTotals)>,
        |
            #![trigger to_map(groups)]
            to_map(groups) == grouped(squad_labels(rows)) && keys_ascend(groups) && out@
                == sorted_rows(groups, order, ub, groups.len() as int),
        Err(e) => first_unattributed(rows, 0) matches Some(a) && e == Error::Attribution(a),
    }
}

/// What sorting the totals by tribe of `rows` gives: the totals of each
/// tribe, taken in dictionary order of the tribes and then sorted, and the
/// names of the manifests without a tribe.
pub open spec fn is_tribe_top(
    rows: Seq<(Manifest, ResourceTotals)>,
    order: ResourceOrder,
    ub: bool,
    r: TribeFold,
) -> bool {
    &&& in_order(r.rows@, order, ub)
    &&& r.orphans@ == orphan_names(rows, rows.len() as int)
    &&& exists|groups: Seq<(String, ResourceTotals)>|
        #![trigger to_map(groups)]
        to_map(groups) == grouped(tribe_labels(rows)) && keys_ascend(groups) && r.rows@
            == sorted_rows(groups, order, ub, groups.len() as int)
}

/// Sums `rows` by squad and sorts the sums.
pub fn squad_top(rows: Vec<(Manifest, ResourceTotals)>, order: ResourceOrder, ub: bool) -> (r:
    Result<Vec<(String, ResourceTotals)>, Error>)
    ensures
        is_squad_top(rows@, order, ub, r),
{
    let groups = fold_manifests_by_squad(rows)?;
    let ghost g = groups@;
    let out = sort_resources(groups, order, ub);
    assert(to_map(g) == grouped(squad_labels(rows@)));
    Ok(out)
}

/// Sums `rows` by tribe and sorts the sums.
pub fn tribe_top(rows: Vec<(Manifest, ResourceTotals)>, order: ResourceOrder, ub: bool) -> (r:
    TribeFold)
    ensures
        is_tribe_top(rows@, order, ub, r),
{
    let folded = fold_manifests_by_tribe(rows);
    let ghost g = folded.rows@;
    let out = sort_resources(folded.rows, order, ub);
    assert(to_map(g) == grouped(tribe_labels(rows@)));
    TribeFold { rows: out, orphans: folded.orphans }
}

/// The totals of each squad in one region, sorted.
pub fn region_squad_requests(order: ResourceOrder, ub: bool, manifests: Vec<Manifest>) -> (r:
    Result<Vec<(String, ResourceTotals)>, Error>)
    ensures
        match region_rows(manifests@, manifests@.len() as int) {
            Ok(rows) => is_squad_top(rows, order, ub, r),
            Err(e) => r == Err::<Vec<(String, ResourceTotals)>, Error>(e),
        },
{
    let rows = calculate_manifest_requests(manifests)?;
    squad_top(rows, order, ub)
}

/// The totals of each tribe in one region, sorted.
pub fn region_tribe_requests(order: ResourceOrder, ub: bool, manifests: Vec<Manifest>) -> (r:
    Result<TribeFold, Error>)
    ensures
        match region_rows(manifests@, manifests@.len() as int) {
            Ok(rows) => r matches Ok(top) && is_tribe_top(rows, order, ub, top),
            Err(e) => r matches Err(f) && f == e,
        },
{
    let rows = calculate_manifest_requests(manifests)?;
    Ok(tribe_top(rows, order, ub))
}

/// The totals of each squad in the world, sorted.
pub fn world_squad_requests(order: ResourceOrder, ub: bool, services: Vec<Vec<Manifest>>) -> (r:
    Result<Vec<(String, ResourceTotals)>, Error>)
    ensures
        match world_rows(services@, services@.len() as int) {
            Ok(rows) => is_squad_top(rows, order, ub, r),
            Err(e) => r == Err::<Vec<(String, ResourceTotals)>, Error>(e),
        },
{
    let rows = calculate_manifest_requests_world(services)?;
    squad_top(rows, order, ub)
}

/// The totals of each tribe in the world, sorted.
pub fn world_tribe_requests(order: ResourceOrder, ub: bool, services: Vec<Vec<Manifest>>) -> (r:
    Result<TribeFold, Error>)
    ensures
        match world_rows(services@, services@.len() as int) {
            Ok(rows) => r matches Ok(top) && is_tribe_top(rows, order, ub, top),
            Err(e) => r matches Err(f) && f == e,
        },
{
    let rows = calculate_manifest_requests_world(services)?;
    Ok(tribe_top(rows, order, ub))
}

} // verus!
