//! Resource totals: what adds up, and what a manifest asks for.

use crate::error::Error;
use crate::manifest::{Manifest, Resources, Sidecar, Worker};
use crate::usage::{normalised, Usage};
use vstd::prelude::*;

verus! {

/// The amounts that containers request and the amounts that limit them.
#[derive(Clone, Copy, Debug, PartialEq, Eq, Structural)]
pub struct ResourceUsage {
    pub requests: Usage,
    pub limits: Usage,
}

/// The resources of a manifest: `base` for its primary container, `extra`
/// for the containers beside it (sidecars and workers).
#[derive(Clone, Copy, Debug, PartialEq, Eq, Structural)]
pub struct ResourceTotals {
    pub base: ResourceUsage,
    pub extra: ResourceUsage,
}

/// `a + b`, or the largest `u64` where the sum is beyond it.
pub open spec fn sat_add(a: u64, b: u64) -> u64 {
    if a + b > u64::MAX {
        u64::MAX
    } else {
        (a + b) as u64
    }
}

pub open spec fn usage_zero() -> Usage {
    Usage { cpu: 0, memory: 0 }
}

/// CPU and memory added each for itself.
pub open spec fn usage_sum(a: Usage, b: Usage) -> Usage {
    Usage { cpu: sat_add(a.cpu, b.cpu), memory: sat_add(a.memory, b.memory) }
}

pub open spec fn resource_zero() -> ResourceUsage {
    ResourceUsage { requests: usage_zero(), limits: usage_zero() }
}

/// Requests and limits added each for itself.
pub open spec fn resource_sum(a: ResourceUsage, b: ResourceUsage) -> ResourceUsage {
    ResourceUsage {
        requests: usage_sum(a.requests, b.requests),
        limits: usage_sum(a.limits, b.limits),
    }
}

/// The totals of nothing.
pub open spec fn totals_zero() -> ResourceTotals {
    ResourceTotals { base: resource_zero(), extra: resource_zero() }
}

/// `base` and `extra` added each for itself.
pub open spec fn totals_sum(a: ResourceTotals, b: ResourceTotals) -> ResourceTotals {
    ResourceTotals { base: resource_sum(a.base, b.base), extra: resource_sum(a.extra, b.extra) }
}

/// Adding totals does not depend on the order of the two.
pub proof fn lemma_totals_sum_commutes(a: ResourceTotals, b: ResourceTotals)
    ensures
        totals_sum(a, b) == totals_sum(b, a),
{
}

/// Adding totals does not depend on how three of them are grouped.
pub proof fn lemma_totals_sum_associates(a: ResourceTotals, b: ResourceTotals, c: ResourceTotals)
    ensures
        totals_sum(totals_sum(a, b), c) == totals_sum(a, totals_sum(b, c)),
{
}

/// Adding the totals of nothing changes nothing.
pub proof fn lemma_totals_sum_zero(a: ResourceTotals)
    ensures
        totals_sum(a, totals_zero()) == a,
        totals_sum(totals_zero(), a) == a,
{
}

impl Usage {
    /// No CPU and no memory.
    pub fn zero() -> (r: Usage)
        ensures
            r == usage_zero(),
    {
        Usage { cpu: 0, memory: 0 }
    }

    /// The sum of two amounts; a sum beyond `u64::MAX` is given as `u64::MAX`.
    pub fn plus(&self, other: &Usage) -> (r: Usage)
        ensures
            r == usage_sum(*self, *other),
    {
        Usage {
            cpu: self.cpu.saturating_add(other.cpu),
            memory: self.memory.saturating_add(other.memory),
        }
    }
}

impl ResourceUsage {
    /// No requests and no limits.
    pub fn zero() -> (r: ResourceUsage)
        ensures
            r == resource_zero(),
    {
        ResourceUsage { requests: Usage::zero(), limits: Usage::zero() }
    }

    /// The sum of two usages, requests and limits each for itself.
    pub fn plus(&self, other: &ResourceUsage) -> (r: ResourceUsage)
        ensures
            r == resource_sum(*self, *other),
    {
        ResourceUsage {
            requests: self.requests.plus(&other.requests),
            limits: self.limits.plus(&other.limits),
        }
    }
}

impl ResourceTotals {
    /// The totals of nothing.
    pub fn zero() -> (r: ResourceTotals)
        ensures
            r == totals_zero(),
    {
        ResourceTotals { base: ResourceUsage::zero(), extra: ResourceUsage::zero() }
    }

    /// The sum of two totals, `base` and `extra` each for itself.
    pub fn plus(&self, other: &ResourceTotals) -> (r: ResourceTotals)
        ensures
            r == totals_sum(*self, *other),
    {
        ResourceTotals { base: self.base.plus(&other.base), extra: self.extra.plus(&other.extra) }
    }
}

/// An amount, or nothing where none is declared.
pub open spec fn or_zero(u: Option<Usage>) -> Usage {
    match u {
        Some(u) => u,
        None => usage_zero(),
    }
}

/// What a container with the resources `r` uses: nothing where it declares
/// none.
pub open spec fn container_usage(r: Option<Resources>) -> Result<ResourceUsage, Error> {
    match r {
        None => Ok(resource_zero()),
        Some(r) => match normalised(r) {
            Err(e) => Err(e),
            Ok(d) => Ok(ResourceUsage { requests: or_zero(d.requests), limits: or_zero(d.limits) }),
        },
    }
}

/// `acc` and the usage of one more container; the earlier error where both fail.
pub open spec fn and_container(acc: Result<ResourceUsage, Error>, r: Option<Resources>) -> Result<
    ResourceUsage,
    Error,
> {
    match acc {
        Err(e) => Err(e),
        Ok(a) => match container_usage(r) {
            Err(e) => Err(e),
            Ok(u) => Ok(resource_sum(a, u)),
        },
    }
}

/// `start` and what the first `n` sidecars use.
pub open spec fn with_sidecars(
    start: Result<ResourceUsage, Error>,
    ss: Seq<Sidecar>,
    n: int,
) -> Result<ResourceUsage, Error>
    decreases n,
{
    if n <= 0 {
        start
    } else {
        and_container(with_sidecars(start, ss, n - 1), ss[n - 1].resources)
    }
}

/// `start` and what the first `n` workers use.
pub open spec fn with_workers(
    start: Result<ResourceUsage, Error>,
    ws: Seq<Worker>,
    n: int,
) -> Result<ResourceUsage, Error>
    decreases n,
{
    if n <= 0 {
        start
    } else {
        and_container(with_workers(start, ws, n - 1), ws[n - 1].resources)
    }
}

/// What the containers beside the primary one use: the sidecars, then the
/// workers.
pub open spec fn extra_usage(m: Manifest) -> Result<ResourceUsage, Error> {
    with_workers(
        with_sidecars(Ok(resource_zero()), m.sidecars@, m.sidecars@.len() as int),
        m.workers@,
        m.workers@.len() as int,
    )
}

/// The resource totals of a manifest: `base` is what its own resources
/// declare, `extra` what its sidecars and workers declare. The first quantity
/// that cannot be parsed is the error.
pub open spec fn resource_totals(m: Manifest) -> Result<ResourceTotals, Error> {
    match container_usage(m.resources) {
        Err(e) => Err(e),
        Ok(base) => match extra_usage(m) {
            Err(e) => Err(e),
            Ok(extra) => Ok(ResourceTotals { base, extra }),
        },
    }
}

/// What a container with the resources `r` uses.
pub fn usage_of_container(r: &Option<Resources>) -> (u: Result<ResourceUsage, Error>)
    ensures
        u == container_usage(*r),
{
    match r {
        None => Ok(ResourceUsage::zero()),
        Some(r) => {
            let d = r.normalised()?;
            Ok(
                ResourceUsage {
                    requests: match d.requests {
                        Some(q) => q,
                        None => Usage::zero(),
                    },
                    limits: match d.limits {
                        Some(l) => l,
                        None => Usage::zero(),
                    },
                },
            )
        },
    }
}

impl Manifest {
    /// Computes the resource totals of the manifest.
    pub fn compute_resource_totals(&self) -> (r: Result<ResourceTotals, Error>)
        ensures
            r == resource_totals(*self),
    {
        let base = usage_of_container(&self.resources)?;
        let mut extra = ResourceUsage::zero();
        let mut i: usize = 0;
        while i < self.sidecars.len()
            invariant
                container_usage(self.resources) == Ok::<ResourceUsage, Error>(base),
                i <= self.sidecars.len(),
                with_sidecars(Ok(resource_zero()), self.sidecars@, i as int) == Ok::<
                    ResourceUsage,
                    Error,
                >(extra),
            decreases self.sidecars.len() - i,
        {
            match usage_of_container(&self.sidecars[i].resources) {
                Ok(u) => {
                    extra = extra.plus(&u);
                },
                Err(e) => {
                    proof {
                        lemma_sidecars_error_stays(
                            Ok(resource_zero()),
                            self.sidecars@,
                            i as int + 1,
                            self.sidecars@.len() as int,
                        );
                        lemma_workers_error_stays(
                            with_sidecars(
                                Ok(resource_zero()),
                                self.sidecars@,
                                self.sidecars@.len() as int,
                            ),
                            self.workers@,
                            0,
                            self.workers@.len() as int,
                        );
                    }
                    return Err(e);
                },
            }
            i += 1;
        }
        let ghost start = with_sidecars(
            Ok(resource_zero()),
            self.sidecars@,
            self.sidecars@.len() as int,
        );
        let mut j: usize = 0;
        while j < self.workers.len()
            invariant
                container_usage(self.resources) == Ok::<ResourceUsage, Error>(base),
                start == with_sidecars(
                    Ok(resource_zero()),
                    self.sidecars@,
                    self.sidecars@.len() as int,
                ),
                j <= self.workers.len(),
                with_workers(start, self.workers@, j as int) == Ok::<ResourceUsage, Error>(extra),
            decreases self.workers.len() - j,
        {
            match usage_of_container(&self.workers[j].resources) {
                Ok(u) => {
                    extra = extra.plus(&u);
                },
                Err(e) => {
                    proof {
                        lemma_workers_error_stays(
                            start,
                            self.workers@,
                            j as int + 1,
                            self.workers@.len() as int,
                        );
                    }
                    return Err(e);
                },
            }
            j += 1;
        }
        Ok(ResourceTotals { base, extra })
    }
}

/// Once counting sidecars has failed, counting more of them fails the same way.
proof fn lemma_sidecars_error_stays(
    start: Result<ResourceUsage, Error>,
    ss: Seq<Sidecar>,
    n: int,
    m: int,
)
    requires
        n <= m,
        with_sidecars(start, ss, n) is Err,
    ensures
        with_sidecars(start, ss, m) == with_sidecars(start, ss, n),
    decreases m - n,
{
    if n < m {
        lemma_sidecars_error_stays(start, ss, n, m - 1);
    }
}

/// Once counting workers has failed, counting more of them fails the same way.
proof fn lemma_workers_error_stays(
    start: Result<ResourceUsage, Error>,
    ws: Seq<Worker>,
    n: int,
    m: int,
)
    requires
        0 <= n <= m,
        with_workers(start, ws, n) is Err,
    ensures
        with_workers(start, ws, m) == with_workers(start, ws, n),
    decreases m - n,
{
    if n < m {
        lemma_workers_error_stays(start, ws, n, m - 1);
    }
}

} // verus!
