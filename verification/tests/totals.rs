use shipcat::error::{Error, ParseError};
use shipcat::manifest::{Manifest, ResourceLimit, ResourceRequest, Resources, Sidecar, Worker};
use shipcat::quantity::QuantityError;
use shipcat::totals::{ResourceTotals, ResourceUsage};
use shipcat::usage::{Declared, Usage};

fn resources(req_cpu: &str, req_mem: &str, lim_cpu: &str, lim_mem: &str) -> Option<Resources> {
    Some(Resources {
        requests: Some(ResourceRequest { cpu: req_cpu.to_string(), memory: req_mem.to_string() }),
        limits: Some(ResourceLimit { cpu: lim_cpu.to_string(), memory: lim_mem.to_string() }),
    })
}

fn usage(cpu: u64, memory: u64) -> Usage {
    Usage { cpu, memory }
}

fn totals(a: u64, b: u64, c: u64, d: u64) -> ResourceTotals {
    ResourceTotals {
        base: ResourceUsage { requests: usage(a, b), limits: usage(b, a) },
        extra: ResourceUsage { requests: usage(c, d), limits: usage(d, c) },
    }
}

#[test]
fn normalised_resources() {
    let r = resources("250m", "512Mi", "2", "1Gi").unwrap();
    assert_eq!(
        r.normalised(),
        Ok(Declared {
            requests: Some(usage(250, 512 * 1024 * 1024)),
            limits: Some(usage(2000, 1024 * 1024 * 1024)),
        })
    );
    let only_requests = Resources { limits: None, ..r };
    assert_eq!(
        only_requests.normalised(),
        Ok(Declared { requests: Some(usage(250, 512 * 1024 * 1024)), limits: None })
    );
}

#[test]
fn totals_of_a_plain_manifest() {
    let mut m = Manifest::new("webapp", "");
    m.resources = resources("250m", "512Mi", "2", "1Gi");
    assert_eq!(
        m.compute_resource_totals(),
        Ok(ResourceTotals {
            base: ResourceUsage {
                requests: usage(250, 512 * 1024 * 1024),
                limits: usage(2000, 1024 * 1024 * 1024),
            },
            extra: ResourceUsage { requests: usage(0, 0), limits: usage(0, 0) },
        })
    );
}

#[test]
fn totals_of_nothing() {
    let m = Manifest::new("webapp", "");
    assert_eq!(m.compute_resource_totals(), Ok(ResourceTotals::zero()));
    assert_eq!(ResourceTotals::zero(), totals(0, 0, 0, 0));
}

#[test]
fn sidecars_and_workers_are_extra() {
    let mut m = Manifest::new("webapp", "");
    m.resources = resources("1", "1Gi", "2", "2Gi");
    m.sidecars = vec![
        Sidecar { name: "proxy".to_string(), resources: resources("100m", "64Mi", "200m", "128Mi") },
        Sidecar { name: "bare".to_string(), resources: None },
    ];
    m.workers = vec![
        Worker { name: "queue".to_string(), resources: resources("500m", "256Mi", "1", "512Mi") },
        Worker { name: "mail".to_string(), resources: resources("400m", "1M", "1", "2M") },
    ];
    let mi = 1024 * 1024;
    assert_eq!(
        m.compute_resource_totals(),
        Ok(ResourceTotals {
            base: ResourceUsage {
                requests: usage(1000, 1024 * mi),
                limits: usage(2000, 2048 * mi),
            },
            extra: ResourceUsage {
                requests: usage(1000, 320 * mi + 1_000_000),
                limits: usage(2200, 640 * mi + 2_000_000),
            },
        })
    );
}

#[test]
fn the_first_unreadable_quantity_is_the_error() {
    let mut m = Manifest::new("webapp", "");
    m.resources = resources("1", "1Gi", "2", "2Gi");
    m.sidecars = vec![Sidecar { name: "a".to_string(), resources: resources("x", "1", "1", "1") }];
    m.workers = vec![Worker { name: "b".to_string(), resources: resources("1", "1Q", "1", "1") }];
    assert_eq!(
        m.compute_resource_totals(),
        Err(Error::Parse(ParseError::Cpu(QuantityError::InvalidNumber)))
    );
    m.sidecars = Vec::new();
    assert_eq!(
        m.compute_resource_totals(),
        Err(Error::Parse(ParseError::Memory(QuantityError::UnknownUnit)))
    );
    m.resources = resources("1", "1Gi", "2z", "2Gi");
    assert_eq!(
        m.compute_resource_totals(),
        Err(Error::Parse(ParseError::Cpu(QuantityError::UnknownUnit)))
    );
}

#[test]
fn sums_add_each_component() {
    let a = totals(1, 2, 3, 4);
    let b = totals(10, 20, 30, 40);
    assert_eq!(a.plus(&b), totals(11, 22, 33, 44));
    assert_eq!(a.plus(&ResourceTotals::zero()), a);
    assert_eq!(ResourceTotals::zero().plus(&a), a);
}

#[test]
fn sums_commute_and_associate() {
    let a = totals(1, 2, 3, 4);
    let b = totals(10, 20, 30, 40);
    let c = totals(u64::MAX - 5, 7, u64::MAX, 0);
    assert_eq!(a.plus(&b), b.plus(&a));
    assert_eq!(a.plus(&c), c.plus(&a));
    assert_eq!(a.plus(&b).plus(&c), a.plus(&b.plus(&c)));
    assert_eq!(c.plus(&c).plus(&a), c.plus(&c.plus(&a)));
}

#[test]
fn sums_saturate() {
    let a = usage(u64::MAX - 1, 5);
    assert_eq!(a.plus(&usage(1, 1)), usage(u64::MAX, 6));
    assert_eq!(a.plus(&usage(2, 1)), usage(u64::MAX, 6));
    assert_eq!(a.plus(&usage(u64::MAX, u64::MAX)), usage(u64::MAX, u64::MAX));
}
