//! The manifest and the types it is made of.

use crate::strmap::StrMap;
use vstd::prelude::*;

verus! {

/// Resources that a container asks for.
#[derive(Clone, Debug, PartialEq, Eq)]
pub struct ResourceRequest {
    /// CPU quantity, such as `250m`.
    pub cpu: String,
    /// Memory quantity, such as `512Mi`.
    pub memory: String,
}

/// Resources that a container may not exceed.
#[derive(Clone, Debug, PartialEq, Eq)]
pub struct ResourceLimit {
    /// CPU quantity, such as `2`.
    pub cpu: String,
    /// Memory quantity, such as `1Gi`.
    pub memory: String,
}

/// Resource requests and limits of a container.
#[derive(Clone, Debug, PartialEq, Eq)]
pub struct Resources {
    pub requests: Option<ResourceRequest>,
    pub limits: Option<ResourceLimit>,
}

/// Bounds on the number of replicas.
#[derive(Clone, Copy, Debug, PartialEq, Eq)]
pub struct Replicas {
    pub min: u32,
    pub max: u32,
}

/// A templated file of a config map.
#[derive(Clone, Debug, PartialEq, Eq)]
pub struct ConfigMappedFile {
    /// Name of the template.
    pub name: String,
    /// Name of the file inside the container.
    pub dest: String,
}

/// Config files mounted into the container.
#[derive(Clone, Debug, PartialEq, Eq)]
pub struct ConfigMap {
    /// Name of the mount; derived from the service's name where left out.
    pub name: Option<String>,
    /// Directory inside the container where the files appear.
    pub mount: String,
    /// The files to mount there.
    pub files: Vec<ConfigMappedFile>,
}

/// What a config map is, as plain values.
pub struct ConfigMapView {
    pub name: Option<Seq<char>>,
    pub mount: Seq<char>,
    pub files: Seq<ConfigMappedFile>,
}

impl View for ConfigMap {
    type V = ConfigMapView;

    open spec fn view(&self) -> ConfigMapView {
        ConfigMapView {
            name: view_of_text(self.name),
            mount: self.mount@,
            files: self.files@,
        }
    }
}

pub open spec fn view_of_configs(c: Option<ConfigMap>) -> Option<ConfigMapView> {
    match c {
        Some(c) => Some(c@),
        None => None,
    }
}

/// Metrics shown on a dashboard.
#[derive(Clone, Debug, PartialEq, Eq)]
pub struct Dashboard {
    pub rows: Vec<String>,
}

/// Metric polling.
#[derive(Clone, Debug, PartialEq, Eq)]
pub struct Prometheus {
    pub enabled: bool,
    pub path: String,
}

/// A service relied upon.
#[derive(Clone, Debug, PartialEq, Eq)]
pub struct Dependency {
    /// Name of the service.
    pub name: String,
    /// Version of its API; `v1` where left out.
    pub api: Option<String>,
}

/// What a dependency is, as plain values.
pub struct DependencyView {
    pub name: Seq<char>,
    pub api: Option<Seq<char>>,
}

impl View for Dependency {
    type V = DependencyView;

    open spec fn view(&self) -> DependencyView {
        DependencyView { name: self.name@, api: view_of_text(self.api) }
    }
}

pub open spec fn views_of_dependencies(ds: Seq<Dependency>) -> Seq<DependencyView> {
    Seq::new(ds.len(), |i: int| ds[i]@)
}

/// An image reference.
#[derive(Clone, Debug, PartialEq, Eq)]
pub struct Image {
    pub name: Option<String>,
    pub repository: Option<String>,
    pub tag: Option<String>,
}

/// What an image reference is, as plain values.
pub struct ImageView {
    pub name: Option<Seq<char>>,
    pub repository: Option<Seq<char>>,
    pub tag: Option<Seq<char>>,
}

/// The characters of an optional string.
pub open spec fn view_of_text(s: Option<String>) -> Option<Seq<char>> {
    match s {
        Some(s) => Some(s@),
        None => None,
    }
}

impl View for Image {
    type V = ImageView;

    open spec fn view(&self) -> ImageView {
        ImageView {
            name: view_of_text(self.name),
            repository: view_of_text(self.repository),
            tag: view_of_text(self.tag),
        }
    }
}

pub open spec fn view_of_image(i: Option<Image>) -> Option<ImageView> {
    match i {
        Some(i) => Some(i@),
        None => None,
    }
}

/// A container run before the service starts.
#[derive(Clone, Debug, PartialEq, Eq)]
pub struct InitContainer {
    pub name: String,
    pub image: String,
    pub command: Vec<String>,
}

/// One key of a secret, mounted as a file.
#[derive(Clone, Debug, PartialEq, Eq)]
pub struct VolumeSecretItem {
    pub key: String,
    pub path: String,
    pub mode: u32,
}

impl Default for VolumeSecretItem {
    /// The key `value` at the path `/`, readable by all and writable by the owner.
    fn default() -> (r: VolumeSecretItem)
        ensures
            r.key@ == "value"@,
            r.path@ == "/"@,
            r.mode == 420,
    {
        VolumeSecretItem { key: String::from_str("value"), path: String::from_str("/"), mode: 420 }
    }
}

/// A secret and the keys taken from it.
#[derive(Clone, Debug, PartialEq, Eq)]
pub struct VolumeSecretDetail {
    pub name: String,
    pub items: Vec<VolumeSecretItem>,
}

/// A source of a projected volume.
#[derive(Clone, Debug, PartialEq, Eq)]
pub struct VolumeSecret {
    pub secret: Option<VolumeSecretDetail>,
}

/// A volume put together from several secrets.
#[derive(Clone, Debug, PartialEq, Eq)]
pub struct ProjectedVolumeSecret {
    pub sources: Vec<VolumeSecret>,
}

/// A volume.
#[derive(Clone, Debug, PartialEq, Eq)]
pub struct Volume {
    pub name: String,
    pub projected: Option<ProjectedVolumeSecret>,
    pub secret: Option<VolumeSecretDetail>,
}

/// Secret store settings.
#[derive(Clone, Debug, PartialEq, Eq)]
pub struct VaultOpts {
    /// Name under which the secrets are kept, if not the service's own.
    pub name: String,
}

/// Health check.
#[derive(Clone, Debug, PartialEq, Eq)]
pub struct HealthCheck {
    /// Where the check is served.
    pub uri: String,
    /// Seconds to wait after start.
    pub wait: u32,
}

/// Who owns a service.
#[derive(Clone, Debug, PartialEq, Eq)]
pub struct Metadata {
    pub team: String,
    pub squad: Option<String>,
    pub tribe: Option<String>,
}

/// A store that the service keeps data in.
#[derive(Clone, Debug, PartialEq, Eq)]
pub struct DataStore {
    pub backend: String,
    /// Whether the store is encrypted; taken from the policy where left out.
    pub encrypted: Option<bool>,
}

/// How the service treats the data it stores.
#[derive(Clone, Debug, PartialEq, Eq)]
pub struct DataHandling {
    /// Whether stores are encrypted unless they say otherwise.
    pub encrypted: Option<bool>,
    pub stores: Vec<DataStore>,
}

/// What a data-handling policy is, as plain values.
pub struct DataHandlingView {
    pub encrypted: Option<bool>,
    pub stores: Seq<DataStore>,
}

impl View for DataHandling {
    type V = DataHandlingView;

    open spec fn view(&self) -> DataHandlingView {
        DataHandlingView { encrypted: self.encrypted, stores: self.stores@ }
    }
}

pub open spec fn view_of_data_handling(d: Option<DataHandling>) -> Option<DataHandlingView> {
    match d {
        Some(d) => Some(d@),
        None => None,
    }
}

/// Streaming settings.
#[derive(Clone, Debug, PartialEq, Eq)]
pub struct Kafka {
    /// Brokers to connect to; the region's where left out.
    pub brokers: Vec<String>,
}

/// What streaming settings are, as plain values.
pub struct KafkaView {
    pub brokers: Seq<String>,
}

impl View for Kafka {
    type V = KafkaView;

    open spec fn view(&self) -> KafkaView {
        KafkaView { brokers: self.brokers@ }
    }
}

pub open spec fn view_of_kafka(k: Option<Kafka>) -> Option<KafkaView> {
    match k {
        Some(k) => Some(k@),
        None => None,
    }
}

/// Gateway settings.
#[derive(Clone, Debug, PartialEq, Eq)]
pub struct Kong {
    /// Name of the route; the service's name once resolved.
    pub name: String,
    /// Address that the gateway forwards to; inside the cluster where left out.
    pub upstream_url: String,
    /// Paths routed to the service.
    pub uris: Option<String>,
    /// Host names routed to the service, separated by commas.
    pub hosts: Option<String>,
    /// The route is for internal callers only.
    pub internal: bool,
}

/// What gateway settings are, as plain values.
pub struct KongView {
    pub name: Seq<char>,
    pub upstream_url: Seq<char>,
    pub uris: Option<String>,
    pub hosts: Option<Seq<char>>,
    pub internal: bool,
}

impl View for Kong {
    type V = KongView;

    open spec fn view(&self) -> KongView {
        KongView {
            name: self.name@,
            upstream_url: self.upstream_url@,
            uris: self.uris,
            hosts: view_of_text(self.hosts),
            internal: self.internal,
        }
    }
}

pub open spec fn view_of_kong(k: Option<Kong>) -> Option<KongView> {
    match k {
        Some(k) => Some(k@),
        None => None,
    }
}

/// How replicas are replaced on an update.
#[derive(Clone, Debug, PartialEq, Eq)]
pub struct RollingUpdate {
    pub max_unavailable: Option<String>,
    pub max_surge: Option<String>,
}

/// Scaling bounds.
#[derive(Clone, Copy, Debug, PartialEq, Eq)]
pub struct AutoScaling {
    pub min_replicas: u32,
    pub max_replicas: u32,
}

/// A probe of the running container.
#[derive(Clone, Debug, PartialEq, Eq)]
pub struct Probe {
    pub uri: String,
    pub delay: u32,
}

/// Hooks run at start and stop.
#[derive(Clone, Debug, PartialEq, Eq)]
pub struct LifeCycle {
    pub post_start: Vec<String>,
    pub pre_stop: Vec<String>,
}

/// An extra host name entry.
#[derive(Clone, Debug, PartialEq, Eq)]
pub struct HostAlias {
    pub ip: String,
    pub hostnames: Vec<String>,
}

/// A node taint that the service tolerates.
#[derive(Clone, Debug, PartialEq, Eq)]
pub struct Toleration {
    pub key: String,
    pub value: Option<String>,
    pub effect: String,
}

/// A volume mounted into the container.
#[derive(Clone, Debug, PartialEq, Eq)]
pub struct VolumeMount {
    pub name: String,
    pub mount_path: String,
    pub read_only: bool,
}

/// A job run on a schedule.
#[derive(Clone, Debug, PartialEq, Eq)]
pub struct CronJob {
    pub name: String,
    pub schedule: String,
    pub command: Vec<String>,
}

/// A container run beside the service.
#[derive(Clone, Debug, PartialEq, Eq)]
pub struct Sidecar {
    pub name: String,
    pub resources: Option<Resources>,
}

/// A worker deployment of the service.
#[derive(Clone, Debug, PartialEq, Eq)]
pub struct Worker {
    pub name: String,
    pub resources: Option<Resources>,
}

/// The deployment descriptor of one service.
#[derive(Clone, Debug, PartialEq, Eq)]
pub struct Manifest {
    /// Name of the service.
    pub name: String,
    /// Regions that the service is deployed to.
    pub regions: Vec<String>,
    /// The service is switched off.
    pub disabled: bool,
    /// The service is hosted elsewhere.
    pub external: bool,
    /// The service can be reached from outside.
    pub publicly_accessible: bool,
    /// Name of the environment, set from the region.
    pub environment: String,
    /// Namespace, set from the region.
    pub namespace: String,
    /// Where the manifest is written back to.
    pub location: String,
    /// Replication limits.
    pub replicas: Option<Replicas>,
    /// Metric polling.
    pub prometheus: Option<Prometheus>,
    /// Dashboards to generate.
    pub dashboards: StrMap<Dashboard>,
    /// Environment variables to inject.
    pub env: StrMap<String>,
    /// Files that are mounted from secrets.
    pub secret_files: StrMap<String>,
    /// Annotations of the service object.
    pub service_annotations: StrMap<String>,
    /// Chart to render with.
    pub chart: Option<String>,
    /// Image to run, if not named after the service.
    pub image: Option<Image>,
    /// Size of the image in megabytes.
    pub image_size: Option<u32>,
    /// Version to deploy.
    pub version: Option<String>,
    /// Who owns the service.
    pub metadata: Option<Metadata>,
    /// How the service treats the data it stores.
    pub data_handling: Option<DataHandling>,
    /// Language the service is written in.
    pub language: Option<String>,
    /// Number of replicas.
    pub replica_count: Option<u32>,
    /// Config files to mount.
    pub configs: Option<ConfigMap>,
    /// Resource requests and limits.
    pub resources: Option<Resources>,
    /// Streaming settings.
    pub kafka: Option<Kafka>,
    /// Gateway settings.
    pub kong: Option<Kong>,
    /// Secret store settings.
    pub vault: Option<VaultOpts>,
    /// How replicas are replaced.
    pub rolling_update: Option<RollingUpdate>,
    /// Scaling bounds.
    pub auto_scaling: Option<AutoScaling>,
    /// Health check.
    pub health: Option<HealthCheck>,
    /// Readiness probe.
    pub readiness_probe: Option<Probe>,
    /// Liveness probe.
    pub liveness_probe: Option<Probe>,
    /// Port the service listens on.
    pub http_port: Option<u32>,
    /// Port the service is exposed on.
    pub external_port: Option<u32>,
    /// Hooks run at start and stop.
    pub lifecycle: Option<LifeCycle>,
    /// Command to run in place of the image's own.
    pub command: Vec<String>,
    /// Host names the service answers to.
    pub hosts: Vec<String>,
    /// Extra host name entries.
    pub host_aliases: Vec<HostAlias>,
    /// Node taints the service tolerates.
    pub tolerations: Vec<Toleration>,
    /// Volumes mounted into the container.
    pub volume_mounts: Vec<VolumeMount>,
    /// Containers run before the service starts.
    pub init_containers: Vec<InitContainer>,
    /// Volumes.
    pub volumes: Vec<Volume>,
    /// Jobs run on a schedule.
    pub cron_jobs: Vec<CronJob>,
    /// Services relied upon.
    pub dependencies: Vec<Dependency>,
    /// Containers run beside the service.
    pub sidecars: Vec<Sidecar>,
    /// Worker deployments.
    pub workers: Vec<Worker>,
    /// Labels of the deployment.
    pub labels: Vec<String>,
    /// Address ranges allowed in.
    pub source_ranges: Vec<String>,
    /// Ports to expose.
    pub ports: Vec<u32>,
}

/// What a manifest is, as plain values.
pub struct ManifestView {
    pub name: Seq<char>,
    pub regions: Seq<String>,
    pub disabled: bool,
    pub external: bool,
    pub publicly_accessible: bool,
    pub environment: Seq<char>,
    pub namespace: Seq<char>,
    pub location: Seq<char>,
    pub replicas: Option<Replicas>,
    pub prometheus: Option<Prometheus>,
    pub dashboards: Map<Seq<char>, Dashboard>,
    pub env: Map<Seq<char>, String>,
    pub secret_files: Map<Seq<char>, String>,
    pub service_annotations: Map<Seq<char>, String>,
    pub chart: Option<String>,
    pub image: Option<ImageView>,
    pub image_size: Option<u32>,
    pub version: Option<String>,
    pub metadata: Option<Metadata>,
    pub data_handling: Option<DataHandlingView>,
    pub language: Option<String>,
    pub replica_count: Option<u32>,
    pub configs: Option<ConfigMapView>,
    pub resources: Option<Resources>,
    pub kafka: Option<KafkaView>,
    pub kong: Option<KongView>,
    pub vault: Option<VaultOpts>,
    pub rolling_update: Option<RollingUpdate>,
    pub auto_scaling: Option<AutoScaling>,
    pub health: Option<HealthCheck>,
    pub readiness_probe: Option<Probe>,
    pub liveness_probe: Option<Probe>,
    pub http_port: Option<u32>,
    pub external_port: Option<u32>,
    pub lifecycle: Option<LifeCycle>,
    pub command: Seq<String>,
    pub hosts: Seq<String>,
    pub host_aliases: Seq<HostAlias>,
    pub tolerations: Seq<Toleration>,
    pub volume_mounts: Seq<VolumeMount>,
    pub init_containers: Seq<InitContainer>,
    pub volumes: Seq<Volume>,
    pub cron_jobs: Seq<CronJob>,
    pub dependencies: Seq<DependencyView>,
    pub sidecars: Seq<Sidecar>,
    pub workers: Seq<Worker>,
    pub labels: Seq<String>,
    pub source_ranges: Seq<String>,
    pub ports: Seq<u32>,
}

impl View for Manifest {
    type V = ManifestView;

    open spec fn view(&self) -> ManifestView {
        ManifestView {
            name: self.name@,
            regions: self.regions@,
            disabled: self.disabled,
            external: self.external,
            publicly_accessible: self.publicly_accessible,
            environment: self.environment@,
            namespace: self.namespace@,
            location: self.location@,
            replicas: self.replicas,
            prometheus: self.prometheus,
            dashboards: self.dashboards@,
            env: self.env@,
            secret_files: self.secret_files@,
            service_annotations: self.service_annotations@,
            chart: self.chart,
            image: view_of_image(self.image),
            image_size: self.image_size,
            version: self.version,
            metadata: self.metadata,
            data_handling: view_of_data_handling(self.data_handling),
            language: self.language,
            replica_count: self.replica_count,
            configs: view_of_configs(self.configs),
            resources: self.resources,
            kafka: view_of_kafka(self.kafka),
            kong: view_of_kong(self.kong),
            vault: self.vault,
            rolling_update: self.rolling_update,
            auto_scaling: self.auto_scaling,
            health: self.health,
            readiness_probe: self.readiness_probe,
            liveness_probe: self.liveness_probe,
            http_port: self.http_port,
            external_port: self.external_port,
            lifecycle: self.lifecycle,
            command: self.command@,
            hosts: self.hosts@,
            host_aliases: self.host_aliases@,
            tolerations: self.tolerations@,
            volume_mounts: self.volume_mounts@,
            init_containers: self.init_containers@,
            volumes: self.volumes@,
            cron_jobs: self.cron_jobs@,
            dependencies: views_of_dependencies(self.dependencies@),
            sidecars: self.sidecars@,
            workers: self.workers@,
            labels: self.labels@,
            source_ranges: self.source_ranges@,
            ports: self.ports@,
        }
    }
}

/// The manifest that holds a name and a location and nothing else.
pub open spec fn blank(name: Seq<char>, location: Seq<char>) -> ManifestView {
    ManifestView {
        name: name,
        regions: Seq::empty(),
        disabled: false,
        external: false,
        publicly_accessible: false,
        environment: Seq::empty(),
        namespace: Seq::empty(),
        location: location,
        replicas: None,
        prometheus: None,
        dashboards: Map::empty(),
        env: Map::empty(),
        secret_files: Map::empty(),
        service_annotations: Map::empty(),
        chart: None,
        image: None,
        image_size: None,
        version: None,
        metadata: None,
        data_handling: None,
        language: None,
        replica_count: None,
        configs: None,
        resources: None,
        kafka: None,
        kong: None,
        vault: None,
        rolling_update: None,
        auto_scaling: None,
        health: None,
        readiness_probe: None,
        liveness_probe: None,
        http_port: None,
        external_port: None,
        lifecycle: None,
        command: Seq::empty(),
        hosts: Seq::empty(),
        host_aliases: Seq::empty(),
        tolerations: Seq::empty(),
        volume_mounts: Seq::empty(),
        init_containers: Seq::empty(),
        volumes: Seq::empty(),
        cron_jobs: Seq::empty(),
        dependencies: Seq::empty(),
        sidecars: Seq::empty(),
        workers: Seq::empty(),
        labels: Seq::empty(),
        source_ranges: Seq::empty(),
        ports: Seq::empty(),
    }
}

impl Manifest {
    /// A manifest that holds a name and a location and nothing else.
    pub fn new(name: &str, location: &str) -> (m: Manifest)
        ensures
            m@ == blank(name@, location@),
    {
        let m = Manifest {
            name: String::from_str(name),
            regions: Vec::new(),
            disabled: false,
            external: false,
            publicly_accessible: false,
            environment: String::new(),
            namespace: String::new(),
            location: String::from_str(location),
            replicas: None,
            prometheus: None,
            dashboards: StrMap::new(),
            env: StrMap::new(),
            secret_files: StrMap::new(),
            service_annotations: StrMap::new(),
            chart: None,
            image: None,
            image_size: None,
            version: None,
            metadata: None,
            data_handling: None,
            language: None,
            replica_count: None,
            configs: None,
            resources: None,
            kafka: None,
            kong: None,
            vault: None,
            rolling_update: None,
            auto_scaling: None,
            health: None,
            readiness_probe: None,
            liveness_probe: None,
            http_port: None,
            external_port: None,
            lifecycle: None,
            command: Vec::new(),
            hosts: Vec::new(),
            host_aliases: Vec::new(),
            tolerations: Vec::new(),
            volume_mounts: Vec::new(),
            init_containers: Vec::new(),
            volumes: Vec::new(),
            cron_jobs: Vec::new(),
            dependencies: Vec::new(),
            sidecars: Vec::new(),
            workers: Vec::new(),
            labels: Vec::new(),
            source_ranges: Vec::new(),
            ports: Vec::new(),
        };
        assert(m@.dependencies =~= Seq::<DependencyView>::empty());
        m
    }
}

} // verus!
