use shipcat::error::{Error, MergeConflict};
use shipcat::manifest::{
    Dependency, HealthCheck, InitContainer, Kong, Manifest, ResourceLimit, ResourceRequest,
    Resources, Volume,
};
use shipcat::strmap::StrMap;

fn env_of(pairs: &[(&str, &str)]) -> StrMap<String> {
    let mut m = StrMap::new();
    for (k, v) in pairs {
        m.insert(k.to_string(), v.to_string());
    }
    m
}

fn volume(name: &str) -> Volume {
    Volume { name: name.to_string(), projected: None, secret: None }
}

fn kong(name: &str) -> Kong {
    Kong {
        name: name.to_string(),
        upstream_url: String::new(),
        uris: None,
        hosts: None,
        internal: false,
    }
}

fn base() -> Manifest {
    let mut m = Manifest::new("webapp", "services/webapp/shipcat.yml");
    m.regions = vec!["dev-uk".to_string()];
    m
}

fn blank_override() -> Manifest {
    Manifest::new("", "")
}

#[test]
fn override_wins_per_key() {
    let mut m = base();
    m.env = env_of(&[("A", "1")]);
    let mut over = blank_override();
    over.env = env_of(&[("A", "2"), ("B", "3")]);
    assert_eq!(m.merge(over), Ok(()));
    assert_eq!(m.env.len(), 2);
    assert_eq!(m.env.get("A"), Some(&"2".to_string()));
    assert_eq!(m.env.get("B"), Some(&"3".to_string()));
    assert_eq!(m.env, env_of(&[("A", "2"), ("B", "3")]));
}

#[test]
fn unlisted_keys_keep_their_values() {
    let mut m = base();
    m.env = env_of(&[("A", "1"), ("C", "keep")]);
    m.secret_files = env_of(&[("cert", "IN_VAULT")]);
    m.service_annotations = env_of(&[("x", "y")]);
    let mut over = blank_override();
    over.env = env_of(&[("A", "2")]);
    over.secret_files = env_of(&[("key", "IN_VAULT")]);
    over.service_annotations = env_of(&[("x", "z")]);
    assert_eq!(m.merge(over), Ok(()));
    assert_eq!(m.env, env_of(&[("A", "2"), ("C", "keep")]));
    assert_eq!(m.secret_files, env_of(&[("cert", "IN_VAULT"), ("key", "IN_VAULT")]));
    assert_eq!(m.service_annotations, env_of(&[("x", "z")]));
}

#[test]
fn empty_volumes_leave_the_base_alone() {
    let mut m = base();
    m.volumes = vec![volume("data"), volume("cache")];
    let over = blank_override();
    assert_eq!(m.merge(over), Ok(()));
    assert_eq!(m.volumes, vec![volume("data"), volume("cache")]);
}

#[test]
fn volumes_are_replaced_as_a_whole() {
    let mut m = base();
    m.volumes = vec![volume("data"), volume("cache")];
    let mut over = blank_override();
    over.volumes = vec![volume("scratch")];
    assert_eq!(m.merge(over), Ok(()));
    assert_eq!(m.volumes, vec![volume("scratch")]);
}

#[test]
fn every_sequence_is_replaced_only_when_filled() {
    let mut m = base();
    m.command = vec!["run".to_string()];
    m.hosts = vec!["a.example".to_string()];
    m.ports = vec![80, 443];
    m.labels = vec!["tier".to_string()];
    m.dependencies = vec![Dependency { name: "auth".to_string(), api: None }];
    m.init_containers = vec![InitContainer {
        name: "init".to_string(),
        image: "busybox".to_string(),
        command: vec!["true".to_string()],
    }];
    let mut over = blank_override();
    over.ports = vec![8080];
    over.hosts = vec!["b.example".to_string(), "c.example".to_string()];
    assert_eq!(m.merge(over), Ok(()));
    assert_eq!(m.command, vec!["run".to_string()]);
    assert_eq!(m.hosts, vec!["b.example".to_string(), "c.example".to_string()]);
    assert_eq!(m.ports, vec![8080]);
    assert_eq!(m.labels, vec!["tier".to_string()]);
    assert_eq!(m.dependencies.len(), 1);
    assert_eq!(m.init_containers.len(), 1);
}

#[test]
fn optional_values_are_replaced_when_given() {
    let mut m = base();
    m.chart = Some("base".to_string());
    m.version = Some("1.0.0".to_string());
    m.replica_count = Some(2);
    m.health = Some(HealthCheck { uri: "/health".to_string(), wait: 30 });
    let mut over = blank_override();
    over.version = Some("1.2.3".to_string());
    over.replica_count = Some(5);
    over.http_port = Some(8000);
    over.resources = Some(Resources {
        requests: Some(ResourceRequest { cpu: "100m".to_string(), memory: "1Gi".to_string() }),
        limits: Some(ResourceLimit { cpu: "1".to_string(), memory: "2Gi".to_string() }),
    });
    assert_eq!(m.merge(over), Ok(()));
    assert_eq!(m.chart, Some("base".to_string()));
    assert_eq!(m.version, Some("1.2.3".to_string()));
    assert_eq!(m.replica_count, Some(5));
    assert_eq!(m.http_port, Some(8000));
    assert_eq!(m.health, Some(HealthCheck { uri: "/health".to_string(), wait: 30 }));
    assert_eq!(m.resources.unwrap().requests.unwrap().cpu, "100m");
}

#[test]
fn what_no_rule_names_stays() {
    let mut m = base();
    m.disabled = true;
    m.namespace = "apps".to_string();
    let mut over = blank_override();
    over.external = true;
    over.namespace = "other".to_string();
    assert_eq!(m.merge(over), Ok(()));
    assert_eq!(m.name, "webapp");
    assert_eq!(m.regions, vec!["dev-uk".to_string()]);
    assert!(m.disabled);
    assert!(!m.external);
    assert_eq!(m.namespace, "apps");
    assert_eq!(m.location, "services/webapp/shipcat.yml");
}

#[test]
fn override_with_a_name_is_refused() {
    let mut m = base();
    m.env = env_of(&[("A", "1")]);
    let before = m.clone();
    let mut over = Manifest::new("other", "");
    over.env = env_of(&[("A", "2")]);
    assert_eq!(m.merge(over), Err(Error::MergeConflict(MergeConflict::Renamed)));
    assert_eq!(m, before);
}

#[test]
fn override_with_regions_is_refused() {
    let mut m = base();
    let before = m.clone();
    let mut over = blank_override();
    over.regions = vec!["prod-uk".to_string()];
    over.version = Some("9".to_string());
    assert_eq!(m.merge(over), Err(Error::MergeConflict(MergeConflict::RegionsOverridden)));
    assert_eq!(m, before);
}

#[test]
fn kong_on_both_sides_is_refused() {
    let mut m = base();
    m.kong = Some(kong("a"));
    let before = m.clone();
    let mut over = blank_override();
    over.kong = Some(kong("b"));
    assert_eq!(m.merge(over), Err(Error::MergeConflict(MergeConflict::KongTwice)));
    assert_eq!(m, before);
}

#[test]
fn kong_on_one_side_is_merged() {
    let mut m = base();
    let mut over = blank_override();
    over.kong = Some(kong("b"));
    assert_eq!(m.merge(over), Ok(()));
    assert_eq!(m.kong, Some(kong("b")));
    let mut n = base();
    n.kong = Some(kong("a"));
    assert_eq!(n.merge(blank_override()), Ok(()));
    assert_eq!(n.kong, Some(kong("a")));
}

#[test]
fn conflicts_are_looked_for_in_order() {
    let mut m = base();
    m.kong = Some(kong("a"));
    let mut over = Manifest::new("other", "");
    over.kong = Some(kong("b"));
    over.regions = vec!["prod-uk".to_string()];
    assert_eq!(m.merge(over), Err(Error::MergeConflict(MergeConflict::Renamed)));
    let mut over = blank_override();
    over.kong = Some(kong("b"));
    over.regions = vec!["prod-uk".to_string()];
    assert_eq!(m.merge(over), Err(Error::MergeConflict(MergeConflict::KongTwice)));
}

#[test]
fn conflict_reasons() {
    assert_eq!(
        MergeConflict::Renamed.reason(),
        "Cannot override service names in other environments"
    );
    assert_eq!(
        MergeConflict::RegionsOverridden.reason(),
        "Regions must only be defined in the main shipcat.yml file"
    );
    assert_eq!(
        MergeConflict::KongTwice.reason(),
        "Cannot have kong in main shipcat.yml and environment override files"
    );
}

#[test]
fn new_manifest_is_blank() {
    let m = Manifest::new("webapp", "here");
    assert_eq!(m.name, "webapp");
    assert_eq!(m.location, "here");
    assert!(m.regions.is_empty());
    assert!(m.env.is_empty());
    assert!(m.image.is_none());
    assert!(m.resources.is_none());
    assert!(m.volumes.is_empty());
    assert!(!m.disabled && !m.external);
}
