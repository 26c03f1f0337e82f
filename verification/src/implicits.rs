//! Values that a manifest takes where it leaves them out: from the
//! configuration, from its own name, from the region and from its own policies.

use crate::config::{ManifestDefaults, Region};
use crate::error::Error;
use crate::manifest::{
    ConfigMapView, DataHandlingView, DataStore, Dependency, DependencyView, Image, ImageView,
    KafkaView, KongView, Manifest, ManifestView,
};
use crate::text::{clone_strings, join, joined};
use vstd::prelude::*;

verus! {

/// The image size, in megabytes, of a manifest that names none.
pub const DEFAULT_IMAGE_SIZE: u32 = 512;

/// `m` with what the configuration gives where the manifest leaves it out:
/// the image (the service's name under the configured prefix), the image
/// size, the chart and the number of replicas.
pub open spec fn with_config_defaults(m: ManifestView, def: ManifestDefaults) -> ManifestView {
    ManifestView {
        image: if m.image is None {
            Some(ImageView { name: Some(m.name), repository: Some(def.image_prefix@), tag: None })
        } else {
            m.image
        },
        image_size: if m.image_size is None {
            Some(DEFAULT_IMAGE_SIZE)
        } else {
            m.image_size
        },
        chart: if m.chart is None {
            Some(def.chart)
        } else {
            m.chart
        },
        replica_count: if m.replica_count is None {
            Some(def.replica_count)
        } else {
            m.replica_count
        },
        ..m
    }
}

/// A dependency with the API version `v1` where it names none.
pub open spec fn with_api_version(d: DependencyView) -> DependencyView {
    DependencyView {
        name: d.name,
        api: if d.api is None {
            Some("v1"@)
        } else {
            d.api
        },
    }
}

/// `m` with what follows from its own name where the manifest leaves it out:
/// the image (named after the service), the name of the config map (the
/// service's name and `-config`), and the API version of each dependency.
pub open spec fn with_implicits(m: ManifestView) -> ManifestView {
    ManifestView {
        image: if m.image is None {
            Some(ImageView { name: Some(m.name), repository: None, tag: None })
        } else {
            m.image
        },
        configs: match m.configs {
            Some(c) => Some(
                ConfigMapView {
                    name: if c.name is None {
                        Some(m.name + "-config"@)
                    } else {
                        c.name
                    },
                    ..c
                },
            ),
            None => None,
        },
        dependencies: Seq::new(
            m.dependencies.len(),
            |i: int| with_api_version(m.dependencies[i]),
        ),
        ..m
    }
}

/// The address of the service `name` inside the cluster, in `namespace`.
pub open spec fn upstream_of(name: Seq<char>, namespace: Seq<char>) -> Seq<char> {
    "http://"@ + name + "."@ + namespace + ".svc.cluster.local"@
}

/// `m` with what the region gives: its environment variables where the
/// manifest does not set them, its name of the environment and its namespace,
/// and, where the manifest has a gateway or a streaming block, the values
/// that these derive from the service's name, its hosts and the region.
pub open spec fn with_region(m: ManifestView, reg: Region) -> ManifestView {
    ManifestView {
        env: reg.env@.union_prefer_right(m.env),
        kong: match m.kong {
            Some(k) => Some(
                KongView {
                    name: m.name,
                    upstream_url: if k.upstream_url.len() == 0 {
                        upstream_of(m.name, reg.namespace@)
                    } else {
                        k.upstream_url
                    },
                    hosts: if m.hosts.len() > 0 {
                        Some(joined(m.hosts, ","@, m.hosts.len() as int))
                    } else {
                        k.hosts
                    },
                    ..k
                },
            ),
            None => None,
        },
        kafka: match m.kafka {
            Some(k) => Some(
                KafkaView {
                    brokers: if k.brokers.len() == 0 {
                        reg.kafka_brokers@
                    } else {
                        k.brokers
                    },
                },
            ),
            None => None,
        },
        environment: reg.environment@,
        namespace: reg.namespace@,
        ..m
    }
}

/// A store that is encrypted as the policy says unless it says so itself.
pub open spec fn with_policy(s: DataStore, encrypted: Option<bool>) -> DataStore {
    DataStore {
        backend: s.backend,
        encrypted: if s.encrypted is None {
            encrypted
        } else {
            s.encrypted
        },
    }
}

/// `m` with the encryption of its data-handling policy passed down to the
/// stores that do not say whether they are encrypted.
pub open spec fn with_struct_implicits(m: ManifestView) -> ManifestView {
    ManifestView {
        data_handling: match m.data_handling {
            Some(d) => Some(
                DataHandlingView {
                    encrypted: d.encrypted,
                    stores: Seq::new(
                        d.stores.len(),
                        |i: int| with_policy(d.stores[i], d.encrypted),
                    ),
                },
            ),
            None => None,
        },
        ..m
    }
}

/// Taking the configuration's defaults twice gives what taking them once gives.
pub proof fn lemma_config_defaults_idempotent(m: ManifestView, def: ManifestDefaults)
    ensures
        with_config_defaults(with_config_defaults(m, def), def) == with_config_defaults(m, def),
{
}

/// Adding the implicit values twice gives what adding them once gives.
pub proof fn lemma_implicits_idempotent(m: ManifestView)
    ensures
        with_implicits(with_implicits(m)) == with_implicits(m),
{
    let once = with_implicits(m);
    let twice = with_implicits(once);
    assert(twice.dependencies =~= once.dependencies);
}

/// Applying a region twice gives what applying it once gives.
pub proof fn lemma_region_idempotent(m: ManifestView, reg: Region)
    ensures
        with_region(with_region(m, reg), reg) == with_region(m, reg),
{
    let once = with_region(m, reg);
    let twice = with_region(once, reg);
    assert(twice.env =~= once.env);
    lemma_upstream_filled(m.name, reg.namespace@);
}

/// Passing the policy down twice gives what passing it down once gives.
pub proof fn lemma_struct_implicits_idempotent(m: ManifestView)
    ensures
        with_struct_implicits(with_struct_implicits(m)) == with_struct_implicits(m),
{
    let once = with_struct_implicits(m);
    let twice = with_struct_implicits(once);
    if once.data_handling is Some {
        assert(twice.data_handling->0.stores =~= once.data_handling->0.stores);
    }
}

/// The address of a service inside the cluster is never empty.
pub proof fn lemma_upstream_filled(name: Seq<char>, namespace: Seq<char>)
    ensures
        upstream_of(name, namespace).len() > 0,
{
    reveal_strlit("http://");
}

impl Manifest {
    /// Fills in, from the configuration, what the manifest leaves out.
    pub fn add_config_defaults(&mut self, def: &ManifestDefaults) -> (r: Result<(), Error>)
        ensures
            r is Ok,
            final(self)@ == with_config_defaults(old(self)@, *def),
    {
        if self.image.is_none() {
            self.image = Some(
                Image {
                    name: Some(self.name.clone()),
                    repository: Some(def.image_prefix.clone()),
                    tag: None,
                },
            );
        }
        if self.image_size.is_none() {
            self.image_size = Some(DEFAULT_IMAGE_SIZE);
        }
        if self.chart.is_none() {
            self.chart = Some(def.chart.clone());
        }
        if self.replica_count.is_none() {
            self.replica_count = Some(def.replica_count);
        }
        Ok(())
    }

    /// Fills in what follows from the manifest's own name.
    pub fn implicits(&mut self) -> (r: Result<(), Error>)
        ensures
            r is Ok,
            final(self)@ == with_implicits(old(self)@),
    {
        if self.image.is_none() {
            self.image = Some(Image { name: Some(self.name.clone()), repository: None, tag: None });
        }
        let configs = self.configs.take();
        if let Some(mut cfg) = configs {
            if cfg.name.is_none() {
                cfg.name = Some(self.name.clone().concat("-config"));
            }
            self.configs = Some(cfg);
        }
        let mut given: Vec<Dependency> = Vec::new();
        std::mem::swap(&mut given, &mut self.dependencies);
        let ghost before = given@;
        let mut filled: Vec<Dependency> = Vec::new();
        for d in it: given
            invariant
                it.seq() == before,
                filled@.len() == it.index(),
                forall|j: int|
                    0 <= j < filled@.len() ==> (#[trigger] filled@[j])@ == with_api_version(
                        before[j]@,
                    ),
        {
            let api = match d.api {
                Some(a) => a,
                None => String::from_str("v1"),
            };
            filled.push(Dependency { name: d.name, api: Some(api) });
        }
        self.dependencies = filled;
        assert(self@.dependencies =~= with_implicits(old(self)@).dependencies);
        Ok(())
    }

    /// Fills in what the region gives.
    pub fn add_region_implicits(&mut self, reg: &Region) -> (r: Result<(), Error>)
        ensures
            r is Ok,
            final(self)@ == with_region(old(self)@, *reg),
    {
        self.env.fill_from(&reg.env);
        let kong = self.kong.take();
        if let Some(mut k) = kong {
            k.name = self.name.clone();
            if k.upstream_url.as_str().is_empty() {
                let mut url = String::from_str("http://");
                url.append(self.name.as_str());
                url.append(".");
                url.append(reg.namespace.as_str());
                url.append(".svc.cluster.local");
                proof {
                    lemma_upstream_filled(self.name@, reg.namespace@);
                }
                k.upstream_url = url;
            }
            if self.hosts.len() > 0 {
                k.hosts = Some(join(&self.hosts, ","));
            }
            self.kong = Some(k);
        }
        let kafka = self.kafka.take();
        if let Some(mut k) = kafka {
            if k.brokers.len() == 0 {
                k.brokers = clone_strings(&reg.kafka_brokers);
            }
            self.kafka = Some(k);
        }
        self.environment = reg.environment.clone();
        self.namespace = reg.namespace.clone();
        Ok(())
    }

    /// Passes the encryption of the data-handling policy down to its stores.
    pub fn add_struct_implicits(&mut self) -> (r: Result<(), Error>)
        ensures
            r is Ok,
            final(self)@ == with_struct_implicits(old(self)@),
    {
        let policy = self.data_handling.take();
        if let Some(mut dh) = policy {
            let mut given: Vec<DataStore> = Vec::new();
            std::mem::swap(&mut given, &mut dh.stores);
            let ghost before = given@;
            let encrypted = dh.encrypted;
            let mut filled: Vec<DataStore> = Vec::new();
            for s in it: given
                invariant
                    it.seq() == before,
                    filled@.len() == it.index(),
                    forall|j: int|
                        0 <= j < filled@.len() ==> #[trigger] filled@[j] == with_policy(
                            before[j],
                            encrypted,
                        ),
            {
                let flag = match s.encrypted {
                    Some(f) => Some(f),
                    None => encrypted,
                };
                filled.push(DataStore { backend: s.backend, encrypted: flag });
            }
            dh.stores = filled;
            assert(dh@.stores =~= with_struct_implicits(old(self)@).data_handling->0.stores);
            self.data_handling = Some(dh);
        }
        Ok(())
    }
}

} // verus!
