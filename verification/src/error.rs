//! The errors of the engine, by kind.

use crate::quantity::QuantityError;
use vstd::prelude::*;

verus! {

/// A source that a composition needs is not there.
#[derive(Clone, Copy, Debug, PartialEq, Eq, Structural)]
pub enum SourceError {
    /// The region is not among the configured regions.
    UnknownRegion,
    /// No secret was handed in for an environment variable that asks for one.
    MissingSecret,
}

/// An override breaks the structure of the manifest that it is merged into.
#[derive(Clone, Copy, Debug, PartialEq, Eq, Structural)]
pub enum MergeConflict {
    /// The override carries a service name.
    Renamed,
    /// Both the manifest and the override carry a gateway block.
    KongTwice,
    /// The override carries a list of regions.
    RegionsOverridden,
}

/// A string that should be a number with a unit, or a version, is not.
#[derive(Clone, Copy, Debug, PartialEq, Eq, Structural)]
pub enum ParseError {
    /// A CPU quantity was refused.
    Cpu(QuantityError),
    /// A memory quantity was refused.
    Memory(QuantityError),
    /// The API version of the dependency at this place is not a number.
    ApiVersion(usize),
    /// A reference to a cluster secret names no key after its colon.
    SecretKeyPath,
}

/// A rule that a resolved manifest breaks.
#[derive(Clone, Copy, Debug, PartialEq, Eq, Structural)]
pub enum Violation {
    EmptyName,
    CpuRequestAboveLimit,
    MemoryRequestAboveLimit,
    CpuRequestTooHigh,
    MemoryRequestTooHigh,
    CpuLimitTooHigh,
    MemoryLimitTooHigh,
    EmptyMountPath,
    MountPathWithoutSlash,
    /// The config file at this place is no template.
    ConfigNotTemplated(usize),
    /// The dependency at this place names no known service.
    UnknownDependency(usize),
    /// The region at this place has no defaults.
    UnsupportedRegion(usize),
    NoRegions,
    /// The image of the init container at this place has no valid shape.
    InitContainerImage(usize),
    /// The init container at this place has no command.
    InitContainerCommand(usize),
}

/// A context that does not lead to exactly one cluster.
#[derive(Clone, Copy, Debug, PartialEq, Eq, Structural)]
pub enum Ambiguity {
    /// This many clusters serve the region of the context, not one.
    Clusters(usize),
}

/// A manifest that cannot be counted under an organisational unit.
#[derive(Clone, Copy, Debug, PartialEq, Eq, Structural)]
pub enum Attribution {
    /// The manifest at this place has no metadata.
    NoMetadata(usize),
    /// The manifest at this place names no squad.
    NoSquad(usize),
}

/// A word that names no choice.
#[derive(Clone, Copy, Debug, PartialEq, Eq, Structural)]
pub enum BadChoice {
    /// The resource to sort by is neither `cpu` nor `memory`.
    ResourceOrder,
    /// The output format is neither `table` nor `yaml`.
    OutputFormat,
}

/// Why a composition, a validation or an aggregation failed.
#[derive(Clone, Copy, Debug, PartialEq, Eq, Structural)]
pub enum Error {
    Source(SourceError),
    MergeConflict(MergeConflict),
    Parse(ParseError),
    Validation(Violation),
    Ambiguity(Ambiguity),
    Attribution(Attribution),
    Choice(BadChoice),
}

/// The text that tells a reader which rule a violation breaks.
pub open spec fn violation_text(v: Violation) -> Seq<char> {
    match v {
        Violation::EmptyName => "Name cannot be empty"@,
        Violation::CpuRequestAboveLimit => "Requested more CPU than what was limited"@,
        Violation::MemoryRequestAboveLimit => "Requested more memory than what was limited"@,
        Violation::CpuRequestTooHigh => "Requested more than 10 cores"@,
        Violation::MemoryRequestTooHigh => "Requested more than 10 GB of memory"@,
        Violation::CpuLimitTooHigh => "CPU limit set to more than 20 cores"@,
        Violation::MemoryLimitTooHigh => "Memory limit set to more than 20 GB of memory"@,
        Violation::EmptyMountPath => "Empty mountpath for config mount"@,
        Violation::MountPathWithoutSlash => "Mount path for configs must end with a slash"@,
        Violation::ConfigNotTemplated(_) => "Only supporting templated config files atm"@,
        Violation::UnknownDependency(_) => "Dependency does not exist among the services"@,
        Violation::UnsupportedRegion(_) => "Unsupported region without region defaults"@,
        Violation::NoRegions => "No regions specified"@,
        Violation::InitContainerImage(_) =>
            "The init container does not seem to match a valid image registry"@,
        Violation::InitContainerCommand(_) => "A command must be specified for the init container"@,
    }
}

impl Violation {
    /// The text that tells a reader which rule was broken.
    pub fn reason(&self) -> (r: &'static str)
        ensures
            r@ == violation_text(*self),
    {
        match self {
            Violation::EmptyName => "Name cannot be empty",
            Violation::CpuRequestAboveLimit => "Requested more CPU than what was limited",
            Violation::MemoryRequestAboveLimit => "Requested more memory than what was limited",
            Violation::CpuRequestTooHigh => "Requested more than 10 cores",
            Violation::MemoryRequestTooHigh => "Requested more than 10 GB of memory",
            Violation::CpuLimitTooHigh => "CPU limit set to more than 20 cores",
            Violation::MemoryLimitTooHigh => "Memory limit set to more than 20 GB of memory",
            Violation::EmptyMountPath => "Empty mountpath for config mount",
            Violation::MountPathWithoutSlash => "Mount path for configs must end with a slash",
            Violation::ConfigNotTemplated(_) => "Only supporting templated config files atm",
            Violation::UnknownDependency(_) => "Dependency does not exist among the services",
            Violation::UnsupportedRegion(_) => "Unsupported region without region defaults",
            Violation::NoRegions => "No regions specified",
            Violation::InitContainerImage(_) =>
                "The init container does not seem to match a valid image registry",
            Violation::InitContainerCommand(_) =>
                "A command must be specified for the init container",
        }
    }
}

/// The text that tells a reader what an override did wrong.
pub open spec fn conflict_text(c: MergeConflict) -> Seq<char> {
    match c {
        MergeConflict::Renamed => "Cannot override service names in other environments"@,
        MergeConflict::KongTwice =>
            "Cannot have kong in main shipcat.yml and environment override files"@,
        MergeConflict::RegionsOverridden =>
            "Regions must only be defined in the main shipcat.yml file"@,
    }
}

impl MergeConflict {
    /// The text that tells a reader what the override did wrong.
    pub fn reason(&self) -> (r: &'static str)
        ensures
            r@ == conflict_text(*self),
    {
        match self {
            MergeConflict::Renamed => "Cannot override service names in other environments",
            MergeConflict::KongTwice =>
                "Cannot have kong in main shipcat.yml and environment override files",
            MergeConflict::RegionsOverridden =>
                "Regions must only be defined in the main shipcat.yml file",
        }
    }
}

} // verus!
