//! The rules that a resolved manifest meets.

use crate::error::{Error, ParseError, Violation};
use crate::manifest::{
    view_of_configs, views_of_dependencies, ConfigMap, ConfigMapView, ConfigMappedFile, Dependency,
    DependencyView, InitContainer, Manifest, ManifestView, Resources,
};
use crate::quantity::{all_digits, digits_value, is_digit_char, read_whole};
use crate::text::{chars_of, contains_name, ends_with, has_suffix, names_contain, str_eq};
use crate::usage::{normalised, Declared};
use vstd::prelude::*;

verus! {

/// The most CPU that a service may request: ten cores, in millicores.
pub const MAX_CPU_REQUEST: u64 = 10_000;

/// The most memory that a service may request: ten gibibytes, in bytes.
pub const MAX_MEMORY_REQUEST: u64 = 10_737_418_240;

/// The highest CPU limit: twenty cores, in millicores.
pub const MAX_CPU_LIMIT: u64 = 20_000;

/// The highest memory limit: twenty gibibytes, in bytes.
pub const MAX_MEMORY_LIMIT: u64 = 21_474_836_480;

/// The bounds that resources are held to.
#[derive(Clone, Copy, Debug, PartialEq, Eq, Structural)]
pub struct Bounds {
    /// The most CPU that a service may request, in millicores.
    pub cpu_request: u64,
    /// The most memory that a service may request, in bytes.
    pub memory_request: u64,
    /// The highest CPU limit, in millicores.
    pub cpu_limit: u64,
    /// The highest memory limit, in bytes.
    pub memory_limit: u64,
}

/// The bounds that hold unless others are chosen: ten cores and ten
/// gibibytes requested, twenty cores and twenty gibibytes as limits.
pub open spec fn default_bounds() -> Bounds {
    Bounds {
        cpu_request: MAX_CPU_REQUEST,
        memory_request: MAX_MEMORY_REQUEST,
        cpu_limit: MAX_CPU_LIMIT,
        memory_limit: MAX_MEMORY_LIMIT,
    }
}

impl Default for Bounds {
    /// Ten cores and ten gibibytes requested, twenty cores and twenty
    /// gibibytes as limits.
    fn default() -> (r: Bounds)
        ensures
            r == default_bounds(),
    {
        Bounds {
            cpu_request: MAX_CPU_REQUEST,
            memory_request: MAX_MEMORY_REQUEST,
            cpu_limit: MAX_CPU_LIMIT,
            memory_limit: MAX_MEMORY_LIMIT,
        }
    }
}

/// What `regex::Regex::new` and `Regex::is_match` give for a pattern and a
/// text: `None` where the pattern does not compile, else whether the pattern
/// is found anywhere in the text.
pub uninterp spec fn regex_search(pattern: Seq<char>, text: Seq<char>) -> Option<bool>;

/// Compiles `pattern` with `regex::Regex::new` and looks for it in `text` with
/// `Regex::is_match`. The contract only names the outcome; that the same
/// pattern and text always give the same outcome is taken on trust.
#[verifier::external_body]
fn regex_is_match(pattern: &str, text: &str) -> (r: Option<bool>)
    ensures
        r == regex_search(pattern@, text@),
{
    match regex::Regex::new(pattern) {
        Ok(re) => Some(re.is_match(text)),
        Err(_) => None,
    }
}

/// The first bound that the declared amounts break: a request above its
/// limit, then a request above the highest request, then a limit above the
/// highest limit, CPU before memory each time.
pub open spec fn check_amounts(d: Declared, b: Bounds) -> Option<Violation> {
    if d.requests is Some && d.limits is Some && d.requests->0.cpu > d.limits->0.cpu {
        Some(Violation::CpuRequestAboveLimit)
    } else if d.requests is Some && d.limits is Some && d.requests->0.memory
        > d.limits->0.memory {
        Some(Violation::MemoryRequestAboveLimit)
    } else if d.requests is Some && d.requests->0.cpu > b.cpu_request {
        Some(Violation::CpuRequestTooHigh)
    } else if d.requests is Some && d.requests->0.memory > b.memory_request {
        Some(Violation::MemoryRequestTooHigh)
    } else if d.limits is Some && d.limits->0.cpu > b.cpu_limit {
        Some(Violation::CpuLimitTooHigh)
    } else if d.limits is Some && d.limits->0.memory > b.memory_limit {
        Some(Violation::MemoryLimitTooHigh)
    } else {
        None
    }
}

/// What is wrong with the resources of a manifest, if anything is: a
/// quantity that cannot be parsed, or a bound that is broken.
pub open spec fn check_resources(r: Option<Resources>, b: Bounds) -> Option<Error> {
    match r {
        None => None,
        Some(r) => match normalised(r) {
            Err(e) => Some(e),
            Ok(d) => match check_amounts(d, b) {
                Some(v) => Some(Error::Validation(v)),
                None => None,
            },
        },
    }
}

/// The first of the files from place `i` on whose name does not end in `.j2`.
pub open spec fn check_files_from(files: Seq<ConfigMappedFile>, i: int) -> Option<Violation>
    decreases files.len() - i,
{
    if i < 0 || i >= files.len() {
        None
    } else if !has_suffix(files[i].name@, ".j2"@) {
        Some(Violation::ConfigNotTemplated(i as usize))
    } else {
        check_files_from(files, i + 1)
    }
}

/// What is wrong with the config map of a manifest, if anything is: a mount
/// path that is empty or `~`, or does not end in a slash, or a file that is
/// no template.
pub open spec fn check_configs(c: Option<ConfigMapView>) -> Option<Violation> {
    match c {
        None => None,
        Some(c) => if c.mount.len() == 0 || c.mount == "~"@ {
            Some(Violation::EmptyMountPath)
        } else if !has_suffix(c.mount, "/"@) {
            Some(Violation::MountPathWithoutSlash)
        } else {
            check_files_from(c.files, 0)
        },
    }
}

/// Where the run of `v` characters that starts at `from` ends.
pub open spec fn version_start(a: Seq<char>, from: int) -> int
    decreases a.len() - from,
{
    if 0 <= from < a.len() && a[from] == 'v' {
        version_start(a, from + 1)
    } else {
        from
    }
}

/// `a[from..]` is an unsigned whole number that fits a machine word: digits
/// only, at least one, after at most one plus sign.
pub open spec fn is_unsigned(a: Seq<char>, from: int) -> bool {
    let start = if from < a.len() && a[from] == '+' {
        from + 1
    } else {
        from
    };
    &&& start < a.len()
    &&& all_digits(a, start, a.len() as int)
    &&& digits_value(a, start, a.len() as int) <= usize::MAX
}

/// An API version is a whole number after any number of leading `v`.
pub open spec fn api_version_ok(a: Seq<char>) -> bool {
    is_unsigned(a, version_start(a, 0))
}

/// What is wrong with the dependency at place `i`, if anything is: it names
/// no known service, or its API version is no number.
pub open spec fn check_dependency(d: DependencyView, i: int, services: Seq<String>) -> Option<
    Error,
> {
    if !names_contain(services, d.name) {
        Some(Error::Validation(Violation::UnknownDependency(i as usize)))
    } else if d.api is Some && !api_version_ok(d.api->0) {
        Some(Error::Parse(ParseError::ApiVersion(i as usize)))
    } else {
        None
    }
}

/// What is wrong with the first faulty dependency from place `i` on.
pub open spec fn check_dependencies_from(
    ds: Seq<DependencyView>,
    services: Seq<String>,
    i: int,
) -> Option<Error>
    decreases ds.len() - i,
{
    if i < 0 || i >= ds.len() {
        None
    } else if check_dependency(ds[i], i, services) is Some {
        check_dependency(ds[i], i, services)
    } else {
        check_dependencies_from(ds, services, i + 1)
    }
}

/// The first region from place `i` on that is not among the known ones.
pub open spec fn check_regions_from(regions: Seq<String>, known: Seq<String>, i: int) -> Option<
    Violation,
>
    decreases regions.len() - i,
{
    if i < 0 || i >= regions.len() {
        None
    } else if !names_contain(known, regions[i]@) {
        Some(Violation::UnsupportedRegion(i as usize))
    } else {
        check_regions_from(regions, known, i + 1)
    }
}

/// What is wrong with the regions of a manifest, if anything is: one that is
/// not known, or that there is none.
pub open spec fn check_regions(regions: Seq<String>, known: Seq<String>) -> Option<Violation> {
    if check_regions_from(regions, known, 0) is Some {
        check_regions_from(regions, known, 0)
    } else if regions.len() == 0 {
        Some(Violation::NoRegions)
    } else {
        None
    }
}

/// The pattern that the image of an init container has to hold: an optional
/// registry, a component, an optional numeric tag.
pub open spec fn image_pattern() -> Seq<char> {
    "(?:[a-z]+/)?([a-z]+)(?::[0-9]+)?"@
}

/// What is wrong with the init container at place `i`, if anything is, given
/// what the search for the image pattern in its image gave: the pattern was
/// not found, or the container has no command.
pub open spec fn check_init_container(c: InitContainer, i: int, found: Option<bool>) -> Option<
    Violation,
> {
    if found != Some(true) {
        Some(Violation::InitContainerImage(i as usize))
    } else if c.command@.len() == 0 {
        Some(Violation::InitContainerCommand(i as usize))
    } else {
        None
    }
}

/// What is wrong with the first faulty init container from place `i` on.
pub open spec fn check_init_containers_from(cs: Seq<InitContainer>, i: int) -> Option<Violation>
    decreases cs.len() - i,
{
    if i < 0 || i >= cs.len() {
        None
    } else {
        let here = check_init_container(cs[i], i, regex_search(image_pattern(), cs[i].image@));
        if here is Some {
            here
        } else {
            check_init_containers_from(cs, i + 1)
        }
    }
}

/// `v`, as an error of validation.
pub open spec fn as_error(v: Option<Violation>) -> Option<Error> {
    match v {
        Some(v) => Some(Error::Validation(v)),
        None => None,
    }
}

/// The first rule that the manifest breaks, if it breaks any. The rules are
/// tried in this order: the name, the resources, the config map, the
/// dependencies, the regions, the init containers.
pub open spec fn first_violation(
    m: ManifestView,
    b: Bounds,
    services: Seq<String>,
    regions: Seq<String>,
) -> Option<Error> {
    if m.name.len() == 0 {
        Some(Error::Validation(Violation::EmptyName))
    } else if check_resources(m.resources, b) is Some {
        check_resources(m.resources, b)
    } else if check_configs(m.configs) is Some {
        as_error(check_configs(m.configs))
    } else if check_dependencies_from(m.dependencies, services, 0) is Some {
        check_dependencies_from(m.dependencies, services, 0)
    } else if check_regions(m.regions, regions) is Some {
        as_error(check_regions(m.regions, regions))
    } else {
        as_error(check_init_containers_from(m.init_containers, 0))
    }
}

/// What is wrong with the name of a manifest, if anything is: it is empty.
pub open spec fn check_name(name: Seq<char>) -> Option<Error> {
    if name.len() == 0 {
        Some(Error::Validation(Violation::EmptyName))
    } else {
        None
    }
}

/// A finding as a sequence: of one, or of none.
pub open spec fn found(e: Option<Error>) -> Seq<Error> {
    match e {
        Some(e) => seq![e],
        None => Seq::empty(),
    }
}

/// What each rule finds wrong with the manifest, in the order of the rules;
/// of each rule, what it finds first.
pub open spec fn findings(
    m: ManifestView,
    b: Bounds,
    services: Seq<String>,
    regions: Seq<String>,
) -> Seq<Error> {
    found(check_name(m.name)) + found(check_resources(m.resources, b)) + found(
        as_error(check_configs(m.configs)),
    ) + found(check_dependencies_from(m.dependencies, services, 0)) + found(
        as_error(check_regions(m.regions, regions)),
    ) + found(as_error(check_init_containers_from(m.init_containers, 0)))
}

/// The first rule that a manifest breaks is the first of all findings.
pub proof fn lemma_first_finding(
    m: ManifestView,
    b: Bounds,
    services: Seq<String>,
    regions: Seq<String>,
)
    ensures
        first_violation(m, b, services, regions) == (if findings(m, b, services, regions).len()
            > 0 {
            Some(findings(m, b, services, regions)[0])
        } else {
            None
        }),
{
}

/// Checks the declared amounts against each other and against the bounds.
pub fn verify_amounts(d: &Declared, bounds: &Bounds) -> (r: Option<Violation>)
    ensures
        r == check_amounts(*d, *bounds),
{
    if let Some(q) = d.requests {
        if let Some(l) = d.limits {
            if q.cpu > l.cpu {
                return Some(Violation::CpuRequestAboveLimit);
            }
            if q.memory > l.memory {
                return Some(Violation::MemoryRequestAboveLimit);
            }
        }
        if q.cpu > bounds.cpu_request {
            return Some(Violation::CpuRequestTooHigh);
        }
        if q.memory > bounds.memory_request {
            return Some(Violation::MemoryRequestTooHigh);
        }
    }
    if let Some(l) = d.limits {
        if l.cpu > bounds.cpu_limit {
            return Some(Violation::CpuLimitTooHigh);
        }
        if l.memory > bounds.memory_limit {
            return Some(Violation::MemoryLimitTooHigh);
        }
    }
    None
}

/// Checks the resources of a manifest.
pub fn verify_resources(r: &Option<Resources>, bounds: &Bounds) -> (e: Option<Error>)
    ensures
        e == check_resources(*r, *bounds),
{
    match r {
        None => None,
        Some(r) => match r.normalised() {
            Err(e) => Some(e),
            Ok(d) => match verify_amounts(&d, bounds) {
                Some(v) => Some(Error::Validation(v)),
                None => None,
            },
        },
    }
}

/// Checks that every file of a config map is a template.
pub fn verify_files(files: &Vec<ConfigMappedFile>) -> (v: Option<Violation>)
    ensures
        v == check_files_from(files@, 0),
{
    let mut i: usize = 0;
    while i < files.len()
        invariant
            i <= files.len(),
            check_files_from(files@, 0) == check_files_from(files@, i as int),
        decreases files.len() - i,
    {
        if !ends_with(files[i].name.as_str(), ".j2") {
            return Some(Violation::ConfigNotTemplated(i));
        }
        i += 1;
    }
    None
}

/// Checks the config map of a manifest.
pub fn verify_configs(c: &Option<ConfigMap>) -> (v: Option<Violation>)
    ensures
        v == check_configs(view_of_configs(*c)),
{
    match c {
        None => None,
        Some(c) => {
            if c.mount.as_str().is_empty() || str_eq(c.mount.as_str(), "~") {
                return Some(Violation::EmptyMountPath);
            }
            if !ends_with(c.mount.as_str(), "/") {
                return Some(Violation::MountPathWithoutSlash);
            }
            verify_files(&c.files)
        },
    }
}

/// Whether `api` is a whole number after any number of leading `v`.
pub fn verify_api_version(api: &str) -> (r: bool)
    ensures
        r == api_version_ok(api@),
{
    let v = chars_of(api);
    let mut i: usize = 0;
    while i < v.len() && v[i] == 'v'
        invariant
            i <= v.len(),
            version_start(v@, 0) == version_start(v@, i as int),
        decreases v.len() - i,
    {
        i += 1;
    }
    let start: usize = if i < v.len() && v[i] == '+' {
        i + 1
    } else {
        i
    };
    if start >= v.len() {
        return false;
    }
    let mut j: usize = start;
    while j < v.len()
        invariant
            v@ == api@,
            i == version_start(v@, 0),
            start == (if i < v.len() && v@[i as int] == '+' {
                i + 1
            } else {
                i as int
            }),
            start <= j <= v.len(),
            all_digits(v@, start as int, j as int),
        decreases v.len() - j,
    {
        if !is_digit_char(v[j]) {
            return false;
        }
        j += 1;
    }
    match read_whole(&v, start, v.len()) {
        Some(n) => n <= usize::MAX as u64,
        None => false,
    }
}

/// Checks the dependencies of a manifest against the known services.
pub fn verify_dependencies(ds: &Vec<Dependency>, services: &Vec<String>) -> (e: Option<Error>)
    ensures
        e == check_dependencies_from(views_of_dependencies(ds@), services@, 0),
{
    let mut i: usize = 0;
    while i < ds.len()
        invariant
            i <= ds.len(),
            check_dependencies_from(views_of_dependencies(ds@), services@, 0)
                == check_dependencies_from(views_of_dependencies(ds@), services@, i as int),
        decreases ds.len() - i,
    {
        if !contains_name(services, ds[i].name.as_str()) {
            return Some(Error::Validation(Violation::UnknownDependency(i)));
        }
        if let Some(api) = &ds[i].api {
            if !verify_api_version(api.as_str()) {
                return Some(Error::Parse(ParseError::ApiVersion(i)));
            }
        }
        i += 1;
    }
    None
}

/// Checks the regions of a manifest against the regions that have defaults.
pub fn verify_regions(regions: &Vec<String>, known: &Vec<String>) -> (v: Option<Violation>)
    ensures
        v == check_regions(regions@, known@),
{
    let mut i: usize = 0;
    while i < regions.len()
        invariant
            i <= regions.len(),
            check_regions_from(regions@, known@, 0) == check_regions_from(
                regions@,
                known@,
                i as int,
            ),
        decreases regions.len() - i,
    {
        if !contains_name(known, regions[i].as_str()) {
            return Some(Violation::UnsupportedRegion(i));
        }
        i += 1;
    }
    if regions.len() == 0 {
        return Some(Violation::NoRegions);
    }
    None
}

/// Checks the init container at place `i`, given what the search for the
/// image pattern in its image gave.
pub fn verify_init_container(c: &InitContainer, i: usize, found: Option<bool>) -> (v: Option<
    Violation,
>)
    ensures
        v == check_init_container(*c, i as int, found),
{
    match found {
        Some(true) => {
            if c.command.len() == 0 {
                Some(Violation::InitContainerCommand(i))
            } else {
                None
            }
        },
        _ => Some(Violation::InitContainerImage(i)),
    }
}

/// Checks the init containers of a manifest.
pub fn verify_init_containers(cs: &Vec<InitContainer>) -> (v: Option<Violation>)
    ensures
        v == check_init_containers_from(cs@, 0),
{
    let mut i: usize = 0;
    while i < cs.len()
        invariant
            i <= cs.len(),
            check_init_containers_from(cs@, 0) == check_init_containers_from(cs@, i as int),
        decreases cs.len() - i,
    {
        let found = regex_is_match("(?:[a-z]+/)?([a-z]+)(?::[0-9]+)?", cs[i].image.as_str());
        let here = verify_init_container(&cs[i], i, found);
        if here.is_some() {
            return here;
        }
        i += 1;
    }
    None
}

impl Manifest {
    /// Checks a resolved manifest against the rules, with the bounds that
    /// hold unless others are chosen, and names the first rule that it breaks.
    ///
    /// `services` are the names of the services that exist, `regions` those
    /// of the regions that have defaults.
    pub fn verify(&self, services: &Vec<String>, regions: &Vec<String>) -> (r: Result<(), Error>)
        ensures
            r == (match first_violation(self@, default_bounds(), services@, regions@) {
                Some(e) => Err(e),
                None => Ok(()),
            }),
    {
        self.verify_within(&Bounds::default(), services, regions)
    }

    /// Checks a resolved manifest against the rules, with bounds of the
    /// caller's choice, and names the first rule that it breaks.
    pub fn verify_within(
        &self,
        bounds: &Bounds,
        services: &Vec<String>,
        regions: &Vec<String>,
    ) -> (r: Result<(), Error>)
        ensures
            r == (match first_violation(self@, *bounds, services@, regions@) {
                Some(e) => Err(e),
                None => Ok(()),
            }),
    {
        if self.name.as_str().is_empty() {
            return Err(Error::Validation(Violation::EmptyName));
        }
        if let Some(e) = verify_resources(&self.resources, bounds) {
            return Err(e);
        }
        if let Some(v) = verify_configs(&self.configs) {
            return Err(Error::Validation(v));
        }
        if let Some(e) = verify_dependencies(&self.dependencies, services) {
            return Err(e);
        }
        if let Some(v) = verify_regions(&self.regions, regions) {
            return Err(Error::Validation(v));
        }
        if let Some(v) = verify_init_containers(&self.init_containers) {
            return Err(Error::Validation(v));
        }
        Ok(())
    }

    /// Checks a resolved manifest against every rule, and gives what each
    /// rule finds first, in the order of the rules.
    pub fn verify_all(
        &self,
        bounds: &Bounds,
        services: &Vec<String>,
        regions: &Vec<String>,
    ) -> (out: Vec<Error>)
        ensures
            out@ == findings(self@, *bounds, services@, regions@),
    {
        let mut out: Vec<Error> = Vec::new();
        if self.name.as_str().is_empty() {
            out.push(Error::Validation(Violation::EmptyName));
        }
        if let Some(e) = verify_resources(&self.resources, bounds) {
            out.push(e);
        }
        if let Some(v) = verify_configs(&self.configs) {
            out.push(Error::Validation(v));
        }
        if let Some(e) = verify_dependencies(&self.dependencies, services) {
            out.push(e);
        }
        if let Some(v) = verify_regions(&self.regions, regions) {
            out.push(Error::Validation(v));
        }
        if let Some(v) = verify_init_containers(&self.init_containers) {
            out.push(Error::Validation(v));
        }
        assert(out@ =~= findings(self@, *bounds, services@, regions@));
        out
    }
}

} // verus!
