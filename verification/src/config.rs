//! The configuration that compositions read: regions, clusters and defaults.

use crate::error::{Ambiguity, Error, SourceError};
use crate::strmap::StrMap;
use crate::text::names_contain;
use vstd::prelude::*;

verus! {

/// Where the secrets of a region are kept.
#[derive(Clone, Debug, PartialEq, Eq)]
pub struct VaultConfig {
    /// Address of the secret store.
    pub url: String,
    /// Folder of the region inside the store.
    pub folder: String,
}

/// A region that services are deployed to, with its defaults.
#[derive(Clone, Debug, PartialEq, Eq)]
pub struct Region {
    pub name: String,
    /// Name of the environment that the region belongs to.
    pub environment: String,
    /// Namespace that services run in.
    pub namespace: String,
    /// Environment variables that every service of the region gets unless it
    /// sets them itself.
    pub env: StrMap<String>,
    pub vault: VaultConfig,
    /// Streaming brokers of the region.
    pub kafka_brokers: Vec<String>,
    /// Gateway of the region.
    pub kong: KongConfig,
    /// Addresses of the region, by what they are for.
    pub base_urls: StrMap<String>,
    /// Address ranges that may reach the region.
    pub ip_whitelist: Vec<String>,
}

/// A route of the gateway that belongs to no service.
#[derive(Clone, Debug, PartialEq, Eq)]
pub struct ExtraApi {
    pub uris: Option<String>,
    pub hosts: Option<String>,
    pub internal: bool,
    pub publicly_accessible: bool,
}

/// The gateway of a region.
#[derive(Clone, Debug, PartialEq, Eq)]
pub struct KongConfig {
    /// What host names of services end in.
    pub base_url: String,
    /// Routes that belong to no service, by name.
    pub extra_apis: StrMap<ExtraApi>,
}

/// Values that a manifest takes where it leaves them out.
#[derive(Clone, Debug, PartialEq, Eq)]
pub struct ManifestDefaults {
    /// Repository that images are fetched from.
    pub image_prefix: String,
    /// Chart to render with.
    pub chart: String,
    /// Number of replicas.
    pub replica_count: u32,
}

/// A cluster and the regions that it serves.
#[derive(Clone, Debug, PartialEq, Eq)]
pub struct Cluster {
    pub name: String,
    /// Address of the API server.
    pub api: String,
    /// Names of the regions that the cluster serves.
    pub regions: Vec<String>,
}

/// The configuration that every composition reads and none changes.
#[derive(Clone, Debug, PartialEq, Eq)]
pub struct Config {
    pub defaults: ManifestDefaults,
    /// The regions, each under its name once.
    pub regions: StrMap<Region>,
    /// The clusters, by the context that names them.
    pub clusters: StrMap<Cluster>,
    /// Contexts that stand for a region of another name.
    pub context_aliases: StrMap<String>,
}

/// What is known of the cluster that serves a context.
#[derive(Clone, Debug, PartialEq, Eq)]
pub struct ClusterInfo {
    pub region: String,
    pub namespace: String,
    pub environment: String,
    /// Address of the API server of the cluster.
    pub apiserver: String,
    /// Name of the cluster.
    pub cluster: String,
    /// Address of the secret store of the region.
    pub vault: String,
}

/// What is known of a cluster, as plain values.
pub struct ClusterInfoView {
    pub region: Seq<char>,
    pub namespace: Seq<char>,
    pub environment: Seq<char>,
    pub apiserver: Seq<char>,
    pub cluster: Seq<char>,
    pub vault: Seq<char>,
}

impl View for ClusterInfo {
    type V = ClusterInfoView;

    open spec fn view(&self) -> ClusterInfoView {
        ClusterInfoView {
            region: self.region@,
            namespace: self.namespace@,
            environment: self.environment@,
            apiserver: self.apiserver@,
            cluster: self.cluster@,
            vault: self.vault@,
        }
    }
}

/// The name of the region that the context `ctx` stands for: `ctx` itself
/// where it names a region, else the region that it is an alias of.
pub open spec fn region_key(conf: Config, ctx: Seq<char>) -> Option<Seq<char>> {
    if conf.regions@.contains_key(ctx) {
        Some(ctx)
    } else if conf.context_aliases@.contains_key(ctx) && conf.regions@.contains_key(
        conf.context_aliases@[ctx]@,
    ) {
        Some(conf.context_aliases@[ctx]@)
    } else {
        None
    }
}

/// The cluster `c` serves the region `region`.
pub open spec fn serves(c: Cluster, region: Seq<char>) -> bool {
    names_contain(c.regions@, region)
}

/// How many of the first `n` clusters serve `region`.
pub open spec fn count_serving(es: Seq<(String, Cluster)>, region: Seq<char>, n: int) -> nat
    decreases n,
{
    if n <= 0 {
        0
    } else if serves(es[n - 1].1, region) {
        count_serving(es, region, n - 1) + 1
    } else {
        count_serving(es, region, n - 1)
    }
}

/// The place of the first cluster from place `i` on that serves `region`.
pub open spec fn first_serving(es: Seq<(String, Cluster)>, region: Seq<char>, i: int) -> Option<
    int,
>
    decreases es.len() - i,
{
    if i < 0 || i >= es.len() {
        None
    } else if serves(es[i].1, region) {
        Some(i)
    } else {
        first_serving(es, region, i + 1)
    }
}

/// What is known of the cluster `cluster` under the name `name`, serving
/// the region `reg` under the name `region`.
pub open spec fn info_of(
    region: Seq<char>,
    reg: Region,
    name: Seq<char>,
    cluster: Cluster,
) -> ClusterInfoView {
    ClusterInfoView {
        region,
        namespace: reg.namespace@,
        environment: reg.environment@,
        apiserver: cluster.api@,
        cluster: name,
        vault: reg.vault.url@,
    }
}

/// What is known of the cluster behind the context `ctx`. Where the context
/// names a cluster, it is that one, under the name of the region. Else the
/// region must be served by exactly one cluster.
pub open spec fn cluster_info(conf: Config, ctx: Seq<char>) -> Result<ClusterInfoView, Error> {
    match region_key(conf, ctx) {
        None => Err(Error::Source(SourceError::UnknownRegion)),
        Some(region) => {
            let reg = conf.regions@[region];
            let es = conf.clusters.entries();
            let n = count_serving(es, region, es.len() as int);
            if conf.clusters@.contains_key(ctx) {
                Ok(info_of(region, reg, region, conf.clusters@[ctx]))
            } else if n != 1 {
                Err(Error::Ambiguity(Ambiguity::Clusters(n as usize)))
            } else {
                let i = first_serving(es, region, 0)->0;
                Ok(info_of(region, reg, es[i].0@, es[i].1))
            }
        },
    }
}

/// What a result that holds cluster information is, as plain values.
pub open spec fn view_of_info(r: Result<ClusterInfo, Error>) -> Result<ClusterInfoView, Error> {
    match r {
        Ok(i) => Ok(i@),
        Err(e) => Err(e),
    }
}

impl Config {
    /// The region of the name `name`, if there is one.
    pub fn get_region_unchecked(&self, name: &str) -> (r: Option<&Region>)
        ensures
            match r {
                Some(reg) => self.regions@.contains_key(name@) && *reg == self.regions@[name@],
                None => !self.regions@.contains_key(name@),
            },
    {
        self.regions.get(name)
    }

    /// The region that the context `ctx` stands for, with its name.
    pub fn get_region(&self, ctx: &str) -> (r: Result<(String, &Region), Error>)
        ensures
            match r {
                Ok(found) => region_key(*self, ctx@) == Some(found.0@) && *found.1
                    == self.regions@[found.0@],
                Err(e) => region_key(*self, ctx@) is None && e == Error::Source(
                    SourceError::UnknownRegion,
                ),
            },
    {
        if let Some(reg) = self.regions.get(ctx) {
            return Ok((String::from_str(ctx), reg));
        }
        if let Some(target) = self.context_aliases.get(ctx) {
            if let Some(reg) = self.regions.get(target.as_str()) {
                return Ok((target.clone(), reg));
            }
        }
        Err(Error::Source(SourceError::UnknownRegion))
    }
}

} // verus!
