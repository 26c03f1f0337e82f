use shipcat::error::{BadChoice, Error};
use shipcat::manifest::Manifest;
use shipcat::order::{sort_resources, OutputFormat, ResourceOrder};
use shipcat::totals::{ResourceTotals, ResourceUsage};
use shipcat::usage::Usage;

fn totals(base_cpu: u64, extra_cpu: u64, base_mem: u64, extra_mem: u64) -> ResourceTotals {
    let zero = Usage { cpu: 0, memory: 0 };
    ResourceTotals {
        base: ResourceUsage { requests: Usage { cpu: base_cpu, memory: base_mem }, limits: zero },
        extra: ResourceUsage { requests: Usage { cpu: extra_cpu, memory: extra_mem }, limits: zero },
    }
}

fn names(rows: &Vec<(Manifest, ResourceTotals)>) -> Vec<String> {
    rows.iter().map(|r| r.0.name.clone()).collect()
}

fn labels(rows: &Vec<(String, ResourceTotals)>) -> Vec<String> {
    rows.iter().map(|r| r.0.clone()).collect()
}

#[test]
fn order_words() {
    assert_eq!(ResourceOrder::from_str("cpu"), Ok(ResourceOrder::Cpu));
    assert_eq!(ResourceOrder::from_str("memory"), Ok(ResourceOrder::Memory));
    assert_eq!(ResourceOrder::from_str("CPU"), Err(Error::Choice(BadChoice::ResourceOrder)));
    assert_eq!(ResourceOrder::from_str(""), Err(Error::Choice(BadChoice::ResourceOrder)));
}

#[test]
fn format_words() {
    assert_eq!(OutputFormat::from_str("table"), Ok(OutputFormat::Table));
    assert_eq!(OutputFormat::from_str("yaml"), Ok(OutputFormat::Yaml));
    assert_eq!(OutputFormat::from_str("json"), Err(Error::Choice(BadChoice::OutputFormat)));
    assert_eq!(OutputFormat::default(), OutputFormat::Table);
}

#[test]
fn measures() {
    let t = totals(1000, 2000, 30, 40);
    assert_eq!(t.measure(ResourceOrder::Cpu, false), 1000);
    assert_eq!(t.measure(ResourceOrder::Cpu, true), 3000);
    assert_eq!(t.measure(ResourceOrder::Memory, false), 30);
    assert_eq!(t.measure(ResourceOrder::Memory, true), 70);
    let big = totals(u64::MAX, 1, u64::MAX - 1, 1);
    assert_eq!(big.measure(ResourceOrder::Cpu, true), u64::MAX);
    assert_eq!(big.measure(ResourceOrder::Memory, true), u64::MAX);
}

#[test]
fn upper_bound_counts_the_extra() {
    let rows = vec![
        (Manifest::new("two-plus-none", ""), totals(2000, 0, 0, 0)),
        (Manifest::new("one-plus-two", ""), totals(1000, 2000, 0, 0)),
    ];
    let sorted = sort_resources(rows.clone(), ResourceOrder::Cpu, true);
    assert_eq!(names(&sorted), vec!["one-plus-two", "two-plus-none"]);
    let sorted = sort_resources(rows, ResourceOrder::Cpu, false);
    assert_eq!(names(&sorted), vec!["two-plus-none", "one-plus-two"]);
}

#[test]
fn sorted_by_memory_descending() {
    let rows = vec![
        ("a".to_string(), totals(9, 0, 10, 0)),
        ("b".to_string(), totals(1, 0, 30, 0)),
        ("c".to_string(), totals(5, 0, 20, 100)),
    ];
    let sorted = sort_resources(rows.clone(), ResourceOrder::Memory, false);
    assert_eq!(labels(&sorted), vec!["b", "c", "a"]);
    let sorted = sort_resources(rows.clone(), ResourceOrder::Memory, true);
    assert_eq!(labels(&sorted), vec!["c", "b", "a"]);
    let sorted = sort_resources(rows, ResourceOrder::Cpu, true);
    assert_eq!(labels(&sorted), vec!["a", "c", "b"]);
}

#[test]
fn ties_are_broken_by_name() {
    let rows = vec![
        ("pear".to_string(), totals(5, 0, 0, 0)),
        ("apple".to_string(), totals(5, 0, 0, 0)),
        ("zebra".to_string(), totals(7, 0, 0, 0)),
        ("fig".to_string(), totals(5, 0, 0, 0)),
    ];
    let sorted = sort_resources(rows, ResourceOrder::Cpu, false);
    assert_eq!(labels(&sorted), vec!["zebra", "apple", "fig", "pear"]);
}

#[test]
fn sorting_keeps_every_row() {
    let rows: Vec<(String, ResourceTotals)> =
        (0..20u64).map(|i| (format!("s{}", i % 7), totals((i * 37) % 11, i, i, 0))).collect();
    let sorted = sort_resources(rows.clone(), ResourceOrder::Cpu, false);
    assert_eq!(sorted.len(), rows.len());
    let mut a = rows.clone();
    let mut b = sorted.clone();
    let key = |r: &(String, ResourceTotals)| (r.0.clone(), r.1.base.requests.cpu, r.1.extra.requests.cpu);
    a.sort_by_key(key);
    b.sort_by_key(key);
    assert_eq!(a, b);
    for w in sorted.windows(2) {
        let (x, y) = (&w[0], &w[1]);
        assert!(
            x.1.base.requests.cpu > y.1.base.requests.cpu
                || (x.1.base.requests.cpu == y.1.base.requests.cpu && x.0 <= y.0)
        );
    }
}

#[test]
fn sorting_nothing() {
    let rows: Vec<(String, ResourceTotals)> = Vec::new();
    assert!(sort_resources(rows, ResourceOrder::Cpu, true).is_empty());
}
