use shipcat::compose::validate;
use shipcat::config::{KongConfig, ManifestDefaults, Region, VaultConfig};
use shipcat::error::{Error, MergeConflict, Violation};
use shipcat::implicits::DEFAULT_IMAGE_SIZE;
use shipcat::manifest::{
    ConfigMap, DataHandling, DataStore, Dependency, Image, Kafka, Kong, Manifest, ResourceLimit,
    ResourceRequest, Resources,
};
use shipcat::strmap::StrMap;

fn env_of(pairs: &[(&str, &str)]) -> StrMap<String> {
    let mut m = StrMap::new();
    for (k, v) in pairs {
        m.insert(k.to_string(), v.to_string());
    }
    m
}

fn defaults() -> ManifestDefaults {
    ManifestDefaults {
        image_prefix: "quay.io/acme".to_string(),
        chart: "base".to_string(),
        replica_count: 2,
    }
}

fn region() -> Region {
    Region {
        name: "dev-uk".to_string(),
        environment: "dev".to_string(),
        namespace: "apps".to_string(),
        env: env_of(&[("LOG_LEVEL", "info"), ("REGION", "uk")]),
        vault: VaultConfig { url: "https://vault.dev".to_string(), folder: "dev-uk".to_string() },
        kafka_brokers: vec!["k1:9092".to_string(), "k2:9092".to_string()],
        kong: KongConfig { base_url: ".dev.example".to_string(), extra_apis: StrMap::new() },
        base_urls: StrMap::new(),
        ip_whitelist: Vec::new(),
    }
}

fn kong() -> Kong {
    Kong {
        name: String::new(),
        upstream_url: String::new(),
        uris: Some("/web".to_string()),
        hosts: None,
        internal: false,
    }
}

fn base() -> Manifest {
    let mut m = Manifest::new("webapp", "");
    m.regions = vec!["dev-uk".to_string()];
    m
}

#[test]
fn config_defaults_fill_what_is_left_out() {
    let mut m = base();
    assert_eq!(m.add_config_defaults(&defaults()), Ok(()));
    assert_eq!(
        m.image,
        Some(Image {
            name: Some("webapp".to_string()),
            repository: Some("quay.io/acme".to_string()),
            tag: None,
        })
    );
    assert_eq!(m.image.as_ref().unwrap().to_text(), "quay.io/acme/webapp:latest");
    assert_eq!(m.image_size, Some(512));
    assert_eq!(DEFAULT_IMAGE_SIZE, 512);
    assert_eq!(m.chart, Some("base".to_string()));
    assert_eq!(m.replica_count, Some(2));
}

#[test]
fn config_defaults_keep_what_is_set() {
    let mut m = base();
    let image = Image { name: Some("custom".to_string()), repository: None, tag: None };
    m.image = Some(image.clone());
    m.image_size = Some(64);
    m.chart = Some("special".to_string());
    m.replica_count = Some(7);
    let before = m.clone();
    assert_eq!(m.add_config_defaults(&defaults()), Ok(()));
    assert_eq!(m, before);
}

#[test]
fn implicits_follow_from_the_name() {
    let mut m = base();
    m.configs = Some(ConfigMap { name: None, mount: "/config/".to_string(), files: Vec::new() });
    m.dependencies = vec![
        Dependency { name: "auth".to_string(), api: None },
        Dependency { name: "mail".to_string(), api: Some("v3".to_string()) },
    ];
    assert_eq!(m.implicits(), Ok(()));
    assert_eq!(
        m.image,
        Some(Image { name: Some("webapp".to_string()), repository: None, tag: None })
    );
    assert_eq!(m.configs.as_ref().unwrap().name, Some("webapp-config".to_string()));
    assert_eq!(m.configs.as_ref().unwrap().mount, "/config/");
    assert_eq!(
        m.dependencies,
        vec![
            Dependency { name: "auth".to_string(), api: Some("v1".to_string()) },
            Dependency { name: "mail".to_string(), api: Some("v3".to_string()) },
        ]
    );
}

#[test]
fn implicits_keep_a_named_config_map() {
    let mut m = base();
    m.configs = Some(ConfigMap {
        name: Some("mine".to_string()),
        mount: "/config/".to_string(),
        files: Vec::new(),
    });
    assert_eq!(m.implicits(), Ok(()));
    assert_eq!(m.configs.unwrap().name, Some("mine".to_string()));
}

#[test]
fn resolving_twice_changes_nothing() {
    let mut m = base();
    m.configs = Some(ConfigMap { name: None, mount: "/config/".to_string(), files: Vec::new() });
    m.dependencies = vec![Dependency { name: "auth".to_string(), api: None }];
    m.kong = Some(kong());
    m.kafka = Some(Kafka { brokers: Vec::new() });
    m.hosts = vec!["a.example".to_string()];
    m.data_handling = Some(DataHandling {
        encrypted: Some(true),
        stores: vec![DataStore { backend: "s3".to_string(), encrypted: None }],
    });
    let once = |m: &mut Manifest| {
        m.add_region_implicits(&region()).unwrap();
        m.add_struct_implicits().unwrap();
        m.add_config_defaults(&defaults()).unwrap();
        m.implicits().unwrap();
    };
    once(&mut m);
    let first = m.clone();
    once(&mut m);
    assert_eq!(m, first);
}

#[test]
fn region_gives_what_the_manifest_leaves_out() {
    let mut m = base();
    m.env = env_of(&[("LOG_LEVEL", "debug"), ("PORT", "80")]);
    m.hosts = vec!["a.example".to_string(), "b.example".to_string()];
    m.kong = Some(kong());
    m.kafka = Some(Kafka { brokers: Vec::new() });
    assert_eq!(m.add_region_implicits(&region()), Ok(()));
    assert_eq!(m.env, env_of(&[("LOG_LEVEL", "debug"), ("PORT", "80"), ("REGION", "uk")]));
    assert_eq!(m.environment, "dev");
    assert_eq!(m.namespace, "apps");
    let k = m.kong.unwrap();
    assert_eq!(k.name, "webapp");
    assert_eq!(k.upstream_url, "http://webapp.apps.svc.cluster.local");
    assert_eq!(k.hosts, Some("a.example,b.example".to_string()));
    assert_eq!(k.uris, Some("/web".to_string()));
    assert_eq!(m.kafka.unwrap().brokers, vec!["k1:9092".to_string(), "k2:9092".to_string()]);
}

#[test]
fn region_keeps_what_the_blocks_set() {
    let mut m = base();
    m.kong = Some(Kong {
        upstream_url: "http://elsewhere".to_string(),
        hosts: Some("x.example".to_string()),
        ..kong()
    });
    m.kafka = Some(Kafka { brokers: vec!["own:9092".to_string()] });
    assert_eq!(m.add_region_implicits(&region()), Ok(()));
    let k = m.kong.unwrap();
    assert_eq!(k.upstream_url, "http://elsewhere");
    assert_eq!(k.hosts, Some("x.example".to_string()));
    assert_eq!(m.kafka.unwrap().brokers, vec!["own:9092".to_string()]);
}

#[test]
fn policy_is_passed_down_to_the_stores() {
    let store = |backend: &str, encrypted| DataStore { backend: backend.to_string(), encrypted };
    let mut m = base();
    m.data_handling = Some(DataHandling {
        encrypted: Some(true),
        stores: vec![store("s3", None), store("redis", Some(false)), store("pg", Some(true))],
    });
    assert_eq!(m.add_struct_implicits(), Ok(()));
    assert_eq!(
        m.data_handling,
        Some(DataHandling {
            encrypted: Some(true),
            stores: vec![
                store("s3", Some(true)),
                store("redis", Some(false)),
                store("pg", Some(true)),
            ],
        })
    );
    let mut n = base();
    n.data_handling = Some(DataHandling { encrypted: None, stores: vec![store("s3", None)] });
    assert_eq!(n.add_struct_implicits(), Ok(()));
    assert_eq!(n.data_handling.unwrap().stores, vec![store("s3", None)]);
    let mut bare = base();
    assert_eq!(bare.add_struct_implicits(), Ok(()));
    assert_eq!(bare, base());
}

#[test]
fn image_text() {
    let image = |name: &str, repository: Option<&str>, tag: Option<&str>| Image {
        name: Some(name.to_string()),
        repository: repository.map(|r| r.to_string()),
        tag: tag.map(|t| t.to_string()),
    };
    assert_eq!(image("web", None, None).to_text(), "web:latest");
    assert_eq!(image("web", Some(""), Some("1.2")).to_text(), "web:1.2");
    assert_eq!(image("web", Some("quay.io/acme"), Some("1.2")).to_text(), "quay.io/acme/web:1.2");
}

#[test]
fn the_cascade_merges_local_then_global() {
    let mut b = base();
    b.env = env_of(&[("A", "base"), ("B", "base")]);
    b.version = Some("1".to_string());
    let mut local = Manifest::new("", "");
    local.env = env_of(&[("B", "local"), ("C", "local")]);
    local.version = Some("2".to_string());
    let mut global = Manifest::new("", "");
    global.env = env_of(&[("C", "global"), ("D", "global")]);
    global.replica_count = Some(9);
    let m = Manifest::completed(b, Some(local), Some(global), &defaults(), &region()).unwrap();
    assert_eq!(
        m.env,
        env_of(&[
            ("A", "base"),
            ("B", "local"),
            ("C", "global"),
            ("D", "global"),
            ("LOG_LEVEL", "info"),
            ("REGION", "uk"),
        ])
    );
    assert_eq!(m.version, Some("2".to_string()));
    assert_eq!(m.replica_count, Some(9));
    assert_eq!(m.chart, Some("base".to_string()));
    assert_eq!(m.image.unwrap().to_text(), "quay.io/acme/webapp:latest");
    assert_eq!(m.environment, "dev");
}

#[test]
fn the_cascade_without_overrides_only_resolves() {
    let m = Manifest::completed(base(), None, None, &defaults(), &region()).unwrap();
    assert_eq!(m.name, "webapp");
    assert_eq!(m.env, env_of(&[("LOG_LEVEL", "info"), ("REGION", "uk")]));
    assert_eq!(m.replica_count, Some(2));
}

#[test]
fn the_cascade_stops_at_a_conflict() {
    let named = Manifest::new("other", "");
    let mut regional = Manifest::new("", "");
    regional.regions = vec!["prod".to_string()];
    assert_eq!(
        Manifest::completed(base(), Some(named.clone()), Some(regional.clone()), &defaults(), &region()),
        Err(Error::MergeConflict(MergeConflict::Renamed))
    );
    assert_eq!(
        Manifest::completed(base(), Some(regional), Some(named), &defaults(), &region()),
        Err(Error::MergeConflict(MergeConflict::RegionsOverridden))
    );
    let mut with_kong = base();
    with_kong.kong = Some(kong());
    let mut over = Manifest::new("", "");
    over.kong = Some(kong());
    assert_eq!(
        Manifest::completed(with_kong, None, Some(over), &defaults(), &region()),
        Err(Error::MergeConflict(MergeConflict::KongTwice))
    );
}

#[test]
fn validate_composes_and_checks() {
    let services = vec!["auth".to_string()];
    let regions = vec!["dev-uk".to_string()];
    let mut b = base();
    b.dependencies = vec![Dependency { name: "auth".to_string(), api: None }];
    let mut over = Manifest::new("", "");
    over.resources = Some(Resources {
        requests: Some(ResourceRequest { cpu: "11".to_string(), memory: "1Gi".to_string() }),
        limits: Some(ResourceLimit { cpu: "12".to_string(), memory: "1Gi".to_string() }),
    });
    let ok = validate(b.clone(), None, None, &defaults(), &region(), &services, &regions).unwrap();
    assert_eq!(ok.dependencies[0].api, Some("v1".to_string()));
    assert_eq!(
        validate(b.clone(), Some(over), None, &defaults(), &region(), &services, &regions),
        Err(Error::Validation(Violation::CpuRequestTooHigh))
    );
    assert_eq!(
        validate(b.clone(), None, None, &defaults(), &region(), &services, &Vec::new()),
        Err(Error::Validation(Violation::UnsupportedRegion(0)))
    );
    assert_eq!(
        validate(b, Some(Manifest::new("x", "")), None, &defaults(), &region(), &services, &regions),
        Err(Error::MergeConflict(MergeConflict::Renamed))
    );
}
