use shipcat::error::Violation;
use shipcat::manifest::{Image, Manifest, VolumeSecretItem};
use shipcat::totals::{ResourceTotals, ResourceUsage};
use shipcat::usage::Usage;

#[test]
fn default_secret_item() {
    let item = VolumeSecretItem::default();
    assert_eq!(item.key, "value");
    assert_eq!(item.path, "/");
    assert_eq!(item.mode, 420);
    assert_eq!(item.mode, 0o644);
}

#[test]
fn every_violation_has_a_reason() {
    let all = [
        Violation::EmptyName,
        Violation::CpuRequestAboveLimit,
        Violation::MemoryRequestAboveLimit,
        Violation::CpuRequestTooHigh,
        Violation::MemoryRequestTooHigh,
        Violation::CpuLimitTooHigh,
        Violation::MemoryLimitTooHigh,
        Violation::EmptyMountPath,
        Violation::MountPathWithoutSlash,
        Violation::ConfigNotTemplated(0),
        Violation::UnknownDependency(0),
        Violation::UnsupportedRegion(0),
        Violation::NoRegions,
        Violation::InitContainerImage(0),
        Violation::InitContainerCommand(0),
    ];
    for (i, a) in all.iter().enumerate() {
        assert!(!a.reason().is_empty());
        for b in &all[i + 1..] {
            assert_ne!(a.reason(), b.reason());
        }
    }
    assert_eq!(Violation::NoRegions.reason(), "No regions specified");
    assert_eq!(
        Violation::InitContainerCommand(4).reason(),
        "A command must be specified for the init container"
    );
}

#[test]
fn manifests_compare_by_what_they_hold() {
    let a = Manifest::new("web", "here");
    let mut b = Manifest::new("web", "here");
    assert_eq!(a, b);
    assert_eq!(a.clone(), a);
    b.image = Some(Image { name: Some("web".to_string()), repository: None, tag: None });
    assert_ne!(a, b);
    b.image = None;
    b.env.insert("A".to_string(), "1".to_string());
    assert_ne!(a, b);
}

#[test]
fn zeros() {
    let zero = Usage { cpu: 0, memory: 0 };
    assert_eq!(Usage::zero(), zero);
    assert_eq!(ResourceUsage::zero(), ResourceUsage { requests: zero, limits: zero });
    assert_eq!(ResourceTotals::zero().base, ResourceUsage::zero());
    assert_eq!(ResourceTotals::zero().extra, ResourceUsage::zero());
}
