use shipcat::error::{Error, ParseError, Violation};
use shipcat::manifest::{
    ConfigMap, ConfigMappedFile, Dependency, InitContainer, Manifest, ResourceLimit,
    ResourceRequest, Resources,
};
use shipcat::quantity::QuantityError;
use shipcat::usage::{Declared, Usage};
use shipcat::verify::{
    verify_amounts, verify_api_version, verify_init_container, Bounds, MAX_CPU_LIMIT,
    MAX_CPU_REQUEST, MAX_MEMORY_LIMIT, MAX_MEMORY_REQUEST,
};

fn resources(req_cpu: &str, req_mem: &str, lim_cpu: &str, lim_mem: &str) -> Option<Resources> {
    Some(Resources {
        requests: Some(ResourceRequest { cpu: req_cpu.to_string(), memory: req_mem.to_string() }),
        limits: Some(ResourceLimit { cpu: lim_cpu.to_string(), memory: lim_mem.to_string() }),
    })
}

fn good() -> Manifest {
    let mut m = Manifest::new("webapp", "");
    m.regions = vec!["dev-uk".to_string()];
    m.resources = resources("250m", "512Mi", "1", "1Gi");
    m
}

fn services() -> Vec<String> {
    vec!["auth".to_string(), "webapp".to_string()]
}

fn regions() -> Vec<String> {
    vec!["dev-uk".to_string(), "prod-uk".to_string()]
}

fn check(m: &Manifest) -> Result<(), Error> {
    m.verify(&services(), &regions())
}

fn violation(v: Violation) -> Result<(), Error> {
    Err(Error::Validation(v))
}

#[test]
fn good_manifest_passes() {
    assert_eq!(check(&good()), Ok(()));
}

#[test]
fn manifest_without_resources_passes() {
    let mut m = good();
    m.resources = None;
    assert_eq!(check(&m), Ok(()));
    m.resources = Some(Resources { requests: None, limits: None });
    assert_eq!(check(&m), Ok(()));
}

#[test]
fn empty_name_fails() {
    let mut m = good();
    m.name = String::new();
    assert_eq!(check(&m), violation(Violation::EmptyName));
    assert_eq!(Violation::EmptyName.reason(), "Name cannot be empty");
}

#[test]
fn eleven_cores_are_too_many() {
    let mut m = good();
    m.resources = resources("11", "512Mi", "12", "1Gi");
    assert_eq!(check(&m), violation(Violation::CpuRequestTooHigh));
    assert_eq!(Violation::CpuRequestTooHigh.reason(), "Requested more than 10 cores");
}

#[test]
fn ten_cores_are_allowed() {
    let mut m = good();
    m.resources = resources("10", "10Gi", "20", "20Gi");
    assert_eq!(check(&m), Ok(()));
    m.resources = resources("10.001", "10Gi", "20", "20Gi");
    assert_eq!(check(&m), violation(Violation::CpuRequestTooHigh));
}

#[test]
fn request_above_limit_fails() {
    let mut m = good();
    m.resources = resources("5", "512Mi", "4", "1Gi");
    assert_eq!(check(&m), violation(Violation::CpuRequestAboveLimit));
    assert_eq!(
        Violation::CpuRequestAboveLimit.reason(),
        "Requested more CPU than what was limited"
    );
    m.resources = resources("1", "2Gi", "4", "1Gi");
    assert_eq!(check(&m), violation(Violation::MemoryRequestAboveLimit));
    assert_eq!(
        Violation::MemoryRequestAboveLimit.reason(),
        "Requested more memory than what was limited"
    );
}

#[test]
fn request_above_limit_is_found_before_the_bounds() {
    let mut m = good();
    m.resources = resources("15", "512Mi", "12", "1Gi");
    assert_eq!(check(&m), violation(Violation::CpuRequestAboveLimit));
}

#[test]
fn memory_bounds() {
    let mut m = good();
    m.resources = resources("1", "11Gi", "2", "12Gi");
    assert_eq!(check(&m), violation(Violation::MemoryRequestTooHigh));
    assert_eq!(Violation::MemoryRequestTooHigh.reason(), "Requested more than 10 GB of memory");
    m.resources = resources("1", "1Gi", "2", "21Gi");
    assert_eq!(check(&m), violation(Violation::MemoryLimitTooHigh));
    assert_eq!(
        Violation::MemoryLimitTooHigh.reason(),
        "Memory limit set to more than 20 GB of memory"
    );
    m.resources = resources("1", "1Gi", "21", "2Gi");
    assert_eq!(check(&m), violation(Violation::CpuLimitTooHigh));
    assert_eq!(Violation::CpuLimitTooHigh.reason(), "CPU limit set to more than 20 cores");
}

#[test]
fn the_bounds_in_canonical_units() {
    assert_eq!(MAX_CPU_REQUEST, 10 * 1000);
    assert_eq!(MAX_CPU_LIMIT, 20 * 1000);
    assert_eq!(MAX_MEMORY_REQUEST, 10 * 1024 * 1024 * 1024);
    assert_eq!(MAX_MEMORY_LIMIT, 20 * 1024 * 1024 * 1024);
    assert_eq!(
        Bounds::default(),
        Bounds {
            cpu_request: MAX_CPU_REQUEST,
            memory_request: MAX_MEMORY_REQUEST,
            cpu_limit: MAX_CPU_LIMIT,
            memory_limit: MAX_MEMORY_LIMIT,
        }
    );
}

#[test]
fn amounts_alone() {
    let u = |cpu, memory| Some(Usage { cpu, memory });
    assert_eq!(verify_amounts(&Declared { requests: None, limits: None }, &Bounds::default()), None);
    assert_eq!(verify_amounts(&Declared { requests: u(10_000, 5), limits: None }, &Bounds::default()), None);
    assert_eq!(
        verify_amounts(&Declared { requests: u(10_001, 5), limits: None }, &Bounds::default()),
        Some(Violation::CpuRequestTooHigh)
    );
    assert_eq!(
        verify_amounts(&Declared { requests: None, limits: u(20_001, 5) }, &Bounds::default()),
        Some(Violation::CpuLimitTooHigh)
    );
    assert_eq!(
        verify_amounts(&Declared { requests: u(5, 5), limits: u(4, 9) }, &Bounds::default()),
        Some(Violation::CpuRequestAboveLimit)
    );
}

#[test]
fn unreadable_quantities_fail() {
    let mut m = good();
    m.resources = resources("250m", "512Xi", "1", "1Gi");
    assert_eq!(check(&m), Err(Error::Parse(ParseError::Memory(QuantityError::UnknownUnit))));
    m.resources = resources("abc", "512Mi", "1", "1Gi");
    assert_eq!(check(&m), Err(Error::Parse(ParseError::Cpu(QuantityError::InvalidNumber))));
    m.resources = resources("abc", "512Mi", "1", "1.2.3Gi");
    assert_eq!(check(&m), Err(Error::Parse(ParseError::Memory(QuantityError::InvalidNumber))));
    m.resources = resources("1", "512Mi", "1Gi", "1Gi");
    assert_eq!(check(&m), Err(Error::Parse(ParseError::Cpu(QuantityError::UnknownUnit))));
}

#[test]
fn config_map_rules() {
    let cfg = |mount: &str, files: &[&str]| {
        Some(ConfigMap {
            name: Some("webapp-config".to_string()),
            mount: mount.to_string(),
            files: files
                .iter()
                .map(|f| ConfigMappedFile { name: f.to_string(), dest: "out".to_string() })
                .collect(),
        })
    };
    let mut m = good();
    m.configs = cfg("/config/", &["a.ini.j2", "b.yml.j2"]);
    assert_eq!(check(&m), Ok(()));
    m.configs = cfg("", &[]);
    assert_eq!(check(&m), violation(Violation::EmptyMountPath));
    m.configs = cfg("~", &[]);
    assert_eq!(check(&m), violation(Violation::EmptyMountPath));
    m.configs = cfg("/config", &[]);
    assert_eq!(check(&m), violation(Violation::MountPathWithoutSlash));
    m.configs = cfg("/config/", &["a.ini.j2", "b.yml"]);
    assert_eq!(check(&m), violation(Violation::ConfigNotTemplated(1)));
    assert_eq!(
        Violation::ConfigNotTemplated(1).reason(),
        "Only supporting templated config files atm"
    );
}

#[test]
fn dependency_rules() {
    let dep = |name: &str, api: Option<&str>| Dependency {
        name: name.to_string(),
        api: api.map(|a| a.to_string()),
    };
    let mut m = good();
    m.dependencies = vec![dep("auth", Some("v1")), dep("webapp", Some("2")), dep("auth", None)];
    assert_eq!(check(&m), Ok(()));
    m.dependencies = vec![dep("auth", Some("v1")), dep("ghost", Some("v1"))];
    assert_eq!(check(&m), violation(Violation::UnknownDependency(1)));
    m.dependencies = vec![dep("auth", Some("vx"))];
    assert_eq!(check(&m), Err(Error::Parse(ParseError::ApiVersion(0))));
    m.dependencies = vec![dep("ghost", Some("vx")), dep("auth", Some("vx"))];
    assert_eq!(check(&m), violation(Violation::UnknownDependency(0)));
}

#[test]
fn api_versions() {
    for ok in ["v1", "1", "vv12", "v+3", "v007", "18446744073709551615"] {
        assert!(verify_api_version(ok), "{}", ok);
        let stripped: String = ok.chars().skip_while(|c| *c == 'v').collect();
        assert!(stripped.parse::<usize>().is_ok());
    }
    for bad in ["", "v", "v1a", "1v", "v-1", "v1.0", "v 1", "v++1", "18446744073709551616", "+"] {
        assert!(!verify_api_version(bad), "{}", bad);
        let stripped: String = bad.chars().skip_while(|c| *c == 'v').collect();
        assert!(stripped.parse::<usize>().is_err());
    }
}

#[test]
fn region_rules() {
    let mut m = good();
    m.regions = vec!["dev-uk".to_string(), "prod-uk".to_string()];
    assert_eq!(check(&m), Ok(()));
    m.regions = vec!["dev-uk".to_string(), "mars".to_string()];
    assert_eq!(check(&m), violation(Violation::UnsupportedRegion(1)));
    m.regions = Vec::new();
    assert_eq!(check(&m), violation(Violation::NoRegions));
}

#[test]
fn init_container_rules() {
    let init = |image: &str, command: &[&str]| InitContainer {
        name: "init".to_string(),
        image: image.to_string(),
        command: command.iter().map(|c| c.to_string()).collect(),
    };
    let mut m = good();
    m.init_containers = vec![init("busybox", &["true"]), init("quay/tool:12", &["run", "it"])];
    assert_eq!(check(&m), Ok(()));
    m.init_containers = vec![init("busybox", &["true"]), init("12345", &["true"])];
    assert_eq!(check(&m), violation(Violation::InitContainerImage(1)));
    m.init_containers = vec![init("", &["true"])];
    assert_eq!(check(&m), violation(Violation::InitContainerImage(0)));
    m.init_containers = vec![init("busybox", &[])];
    assert_eq!(check(&m), violation(Violation::InitContainerCommand(0)));
    m.init_containers = vec![init("UPPER", &[])];
    assert_eq!(check(&m), violation(Violation::InitContainerImage(0)));
}

#[test]
fn init_container_after_the_search() {
    let c = InitContainer {
        name: "init".to_string(),
        image: "anything".to_string(),
        command: vec!["true".to_string()],
    };
    assert_eq!(verify_init_container(&c, 3, Some(true)), None);
    assert_eq!(
        verify_init_container(&c, 3, Some(false)),
        Some(Violation::InitContainerImage(3))
    );
    assert_eq!(verify_init_container(&c, 3, None), Some(Violation::InitContainerImage(3)));
    let empty = InitContainer { command: Vec::new(), ..c };
    assert_eq!(
        verify_init_container(&empty, 2, Some(true)),
        Some(Violation::InitContainerCommand(2))
    );
}

#[test]
fn the_first_broken_rule_is_named() {
    let mut m = good();
    m.regions = Vec::new();
    m.resources = resources("11", "512Mi", "12", "1Gi");
    m.dependencies = vec![Dependency { name: "ghost".to_string(), api: None }];
    assert_eq!(check(&m), violation(Violation::CpuRequestTooHigh));
    m.resources = None;
    assert_eq!(check(&m), violation(Violation::UnknownDependency(0)));
    m.dependencies = Vec::new();
    assert_eq!(check(&m), violation(Violation::NoRegions));
    m.name = String::new();
    assert_eq!(check(&m), violation(Violation::EmptyName));
}

#[test]
fn bounds_of_the_callers_choice() {
    let tight = Bounds { cpu_request: 100, memory_request: 1000, cpu_limit: 200, memory_limit: 2000 };
    let mut m = good();
    m.resources = resources("100m", "1000", "200m", "2000");
    assert_eq!(m.verify_within(&tight, &services(), &regions()), Ok(()));
    m.resources = resources("101m", "1000", "200m", "2000");
    assert_eq!(
        m.verify_within(&tight, &services(), &regions()),
        violation(Violation::CpuRequestTooHigh)
    );
    assert_eq!(check(&m), Ok(()));
    m.resources = resources("100m", "1000", "200m", "2001");
    assert_eq!(
        m.verify_within(&tight, &services(), &regions()),
        violation(Violation::MemoryLimitTooHigh)
    );
}

#[test]
fn every_rule_reports_what_it_finds_first() {
    let bounds = Bounds::default();
    assert_eq!(good().verify_all(&bounds, &services(), &regions()), Vec::new());
    let mut m = good();
    m.name = String::new();
    m.resources = resources("11", "512Mi", "12", "1Gi");
    m.configs = Some(ConfigMap { name: None, mount: "/config".to_string(), files: Vec::new() });
    m.dependencies = vec![
        Dependency { name: "auth".to_string(), api: Some("x".to_string()) },
        Dependency { name: "ghost".to_string(), api: None },
    ];
    m.regions = Vec::new();
    m.init_containers = vec![InitContainer {
        name: "init".to_string(),
        image: "busybox".to_string(),
        command: Vec::new(),
    }];
    let all = m.verify_all(&bounds, &services(), &regions());
    assert_eq!(
        all,
        vec![
            Error::Validation(Violation::EmptyName),
            Error::Validation(Violation::CpuRequestTooHigh),
            Error::Validation(Violation::MountPathWithoutSlash),
            Error::Parse(ParseError::ApiVersion(0)),
            Error::Validation(Violation::NoRegions),
            Error::Validation(Violation::InitContainerCommand(0)),
        ]
    );
    assert_eq!(check(&m), Err(all[0]));
    m.name = "webapp".to_string();
    m.resources = None;
    let fewer = m.verify_all(&bounds, &services(), &regions());
    assert_eq!(fewer.len(), 4);
    assert_eq!(check(&m), Err(fewer[0]));
}
