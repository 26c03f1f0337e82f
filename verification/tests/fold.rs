use shipcat::error::{Attribution, Error};
use shipcat::fold::{fold_manifests_by_squad, fold_manifests_by_tribe};
use shipcat::manifest::{Manifest, Metadata};
use shipcat::totals::{ResourceTotals, ResourceUsage};
use shipcat::usage::Usage;

fn totals(base_cpu: u64, extra_cpu: u64) -> ResourceTotals {
    ResourceTotals {
        base: ResourceUsage {
            requests: Usage { cpu: base_cpu, memory: base_cpu * 10 },
            limits: Usage { cpu: base_cpu * 2, memory: base_cpu * 20 },
        },
        extra: ResourceUsage {
            requests: Usage { cpu: extra_cpu, memory: extra_cpu * 10 },
            limits: Usage { cpu: extra_cpu * 2, memory: extra_cpu * 20 },
        },
    }
}

fn service(name: &str, squad: Option<&str>, tribe: Option<&str>) -> Manifest {
    let mut m = Manifest::new(name, "");
    m.metadata = Some(Metadata {
        team: "team".to_string(),
        squad: squad.map(|s| s.to_string()),
        tribe: tribe.map(|s| s.to_string()),
    });
    m
}

fn sample() -> Vec<(Manifest, ResourceTotals)> {
    vec![
        (service("web", Some("storefront"), Some("commerce")), totals(1, 10)),
        (service("cart", Some("checkout"), Some("commerce")), totals(2, 20)),
        (service("search", Some("storefront"), Some("commerce")), totals(4, 40)),
        (service("mail", Some("platform"), None), totals(8, 80)),
        (service("auth", Some("platform"), Some("core")), totals(16, 160)),
    ]
}

#[test]
fn squads_are_summed_in_order_of_their_names() {
    assert_eq!(
        fold_manifests_by_squad(sample()),
        Ok(vec![
            ("checkout".to_string(), totals(2, 20)),
            ("platform".to_string(), totals(24, 240)),
            ("storefront".to_string(), totals(5, 50)),
        ])
    );
}

#[test]
fn a_manifest_without_a_squad_is_an_error() {
    let mut reqs = sample();
    reqs.insert(2, (service("stray", None, Some("core")), totals(1, 1)));
    reqs.push((Manifest::new("bare", ""), totals(1, 1)));
    assert_eq!(fold_manifests_by_squad(reqs), Err(Error::Attribution(Attribution::NoSquad(2))));
    let mut reqs = sample();
    reqs.insert(0, (Manifest::new("bare", ""), totals(1, 1)));
    assert_eq!(
        fold_manifests_by_squad(reqs),
        Err(Error::Attribution(Attribution::NoMetadata(0)))
    );
}

#[test]
fn a_manifest_without_a_tribe_is_left_out_and_named() {
    let folded = fold_manifests_by_tribe(sample());
    assert_eq!(
        folded.rows,
        vec![("commerce".to_string(), totals(7, 70)), ("core".to_string(), totals(16, 160))]
    );
    assert_eq!(folded.orphans, vec!["mail".to_string()]);
    let squads = fold_manifests_by_squad(sample()).unwrap();
    assert!(squads.iter().any(|r| r.0 == "platform" && r.1 == totals(24, 240)));
}

#[test]
fn tribes_undercount_where_the_mapping_is_incomplete() {
    let sum = |rows: &Vec<(String, ResourceTotals)>| {
        rows.iter().fold(ResourceTotals::zero(), |acc, r| acc.plus(&r.1))
    };
    let squads = fold_manifests_by_squad(sample()).unwrap();
    let tribes = fold_manifests_by_tribe(sample());
    assert_eq!(sum(&squads), totals(31, 310));
    assert_eq!(sum(&tribes.rows), totals(23, 230));
}

#[test]
fn orphans_come_in_their_order() {
    let mut reqs = sample();
    reqs.insert(0, (Manifest::new("bare", ""), totals(1, 1)));
    reqs.push((service("late", Some("x"), None), totals(1, 1)));
    let folded = fold_manifests_by_tribe(reqs);
    assert_eq!(folded.orphans, vec!["bare".to_string(), "mail".to_string(), "late".to_string()]);
    assert_eq!(folded.rows.len(), 2);
}

#[test]
fn folding_nothing() {
    assert_eq!(fold_manifests_by_squad(Vec::new()), Ok(Vec::new()));
    let folded = fold_manifests_by_tribe(Vec::new());
    assert!(folded.rows.is_empty() && folded.orphans.is_empty());
}

#[test]
fn folding_parts_and_combining_gives_the_whole() {
    let whole = fold_manifests_by_squad(sample()).unwrap();
    for mask in 0..32u32 {
        let mut left = Vec::new();
        let mut right = Vec::new();
        for (i, row) in sample().into_iter().enumerate() {
            if mask & (1 << i) != 0 {
                left.push(row);
            } else {
                right.push(row);
            }
        }
        let mut both = fold_manifests_by_squad(left).unwrap();
        for (label, t) in fold_manifests_by_squad(right).unwrap() {
            match both.iter_mut().find(|r| r.0 == label) {
                Some(r) => r.1 = r.1.plus(&t),
                None => both.push((label, t)),
            }
        }
        both.sort_by(|a, b| a.0.cmp(&b.0));
        assert_eq!(both, whole);
    }
}
