//! Merging an override into a manifest.

use crate::error::{Error, MergeConflict};
use crate::manifest::{Manifest, ManifestView};
use vstd::prelude::*;

verus! {

/// An optional value after an override: the override's where it has one.
pub open spec fn pick<T>(base: Option<T>, over: Option<T>) -> Option<T> {
    if over is Some {
        over
    } else {
        base
    }
}

/// A sequence after an override: the override's unless that is empty.
pub open spec fn pick_seq<T>(base: Seq<T>, over: Seq<T>) -> Seq<T> {
    if over.len() > 0 {
        over
    } else {
        base
    }
}

/// What forbids merging `over` into `base`, if anything does: a name on the
/// override, a gateway block on both sides, or regions on the override, looked
/// for in this order.
pub open spec fn merge_conflict(base: ManifestView, over: ManifestView) -> Option<MergeConflict> {
    if over.name.len() > 0 {
        Some(MergeConflict::Renamed)
    } else if base.kong is Some && over.kong is Some {
        Some(MergeConflict::KongTwice)
    } else if over.regions.len() > 0 {
        Some(MergeConflict::RegionsOverridden)
    } else {
        None
    }
}

/// The manifest `base` with the override `over` merged in. Maps take the
/// override's entries key by key; optional values are replaced where the
/// override has one; sequences are replaced where the override's is not
/// empty; everything else stays.
pub open spec fn merged(base: ManifestView, over: ManifestView) -> ManifestView {
    ManifestView {
        env: base.env.union_prefer_right(over.env),
        secret_files: base.secret_files.union_prefer_right(over.secret_files),
        service_annotations: base.service_annotations.union_prefer_right(over.service_annotations),
        chart: pick(base.chart, over.chart),
        image: pick(base.image, over.image),
        image_size: pick(base.image_size, over.image_size),
        version: pick(base.version, over.version),
        metadata: pick(base.metadata, over.metadata),
        data_handling: pick(base.data_handling, over.data_handling),
        language: pick(base.language, over.language),
        replica_count: pick(base.replica_count, over.replica_count),
        configs: pick(base.configs, over.configs),
        resources: pick(base.resources, over.resources),
        kafka: pick(base.kafka, over.kafka),
        kong: pick(base.kong, over.kong),
        vault: pick(base.vault, over.vault),
        rolling_update: pick(base.rolling_update, over.rolling_update),
        auto_scaling: pick(base.auto_scaling, over.auto_scaling),
        health: pick(base.health, over.health),
        readiness_probe: pick(base.readiness_probe, over.readiness_probe),
        liveness_probe: pick(base.liveness_probe, over.liveness_probe),
        http_port: pick(base.http_port, over.http_port),
        external_port: pick(base.external_port, over.external_port),
        lifecycle: pick(base.lifecycle, over.lifecycle),
        command: pick_seq(base.command, over.command),
        hosts: pick_seq(base.hosts, over.hosts),
        host_aliases: pick_seq(base.host_aliases, over.host_aliases),
        tolerations: pick_seq(base.tolerations, over.tolerations),
        volume_mounts: pick_seq(base.volume_mounts, over.volume_mounts),
        init_containers: pick_seq(base.init_containers, over.init_containers),
        volumes: pick_seq(base.volumes, over.volumes),
        cron_jobs: pick_seq(base.cron_jobs, over.cron_jobs),
        dependencies: pick_seq(base.dependencies, over.dependencies),
        sidecars: pick_seq(base.sidecars, over.sidecars),
        workers: pick_seq(base.workers, over.workers),
        labels: pick_seq(base.labels, over.labels),
        source_ranges: pick_seq(base.source_ranges, over.source_ranges),
        ports: pick_seq(base.ports, over.ports),
        ..base
    }
}

/// In a merged manifest the environment holds the variables of both sides,
/// and where both set a variable, the override's value.
pub proof fn lemma_override_wins(base: ManifestView, over: ManifestView, k: Seq<char>)
    ensures
        merged(base, over).env.contains_key(k) == (base.env.contains_key(k)
            || over.env.contains_key(k)),
        over.env.contains_key(k) ==> merged(base, over).env[k] == over.env[k],
        !over.env.contains_key(k) && base.env.contains_key(k) ==> merged(base, over).env[k]
            == base.env[k],
{
}

/// An override without volumes leaves the volumes as they are; one with
/// volumes replaces them all.
pub proof fn lemma_volumes_replaced_or_kept(base: ManifestView, over: ManifestView)
    ensures
        over.volumes.len() == 0 ==> merged(base, over).volumes == base.volumes,
        over.volumes.len() > 0 ==> merged(base, over).volumes == over.volumes,
{
}

/// An override with a name or with regions is never merged.
pub proof fn lemma_structural_guard(base: ManifestView, over: ManifestView)
    ensures
        over.name.len() > 0 || over.regions.len() > 0 ==> merge_conflict(base, over) is Some,
        merge_conflict(base, over) is None ==> over.name.len() == 0 && over.regions.len() == 0
            && !(base.kong is Some && over.kong is Some),
{
}

/// Merging an override that is empty in every field changes nothing.
pub proof fn lemma_empty_override(base: ManifestView, over: ManifestView)
    requires
        over.env == Map::<Seq<char>, String>::empty(),
        over.secret_files == Map::<Seq<char>, String>::empty(),
        over.service_annotations == Map::<Seq<char>, String>::empty(),
        over.chart is None,
        over.image is None,
        over.image_size is None,
        over.version is None,
        over.metadata is None,
        over.data_handling is None,
        over.language is None,
        over.replica_count is None,
        over.configs is None,
        over.resources is None,
        over.kafka is None,
        over.kong is None,
        over.vault is None,
        over.rolling_update is None,
        over.auto_scaling is None,
        over.health is None,
        over.readiness_probe is None,
        over.liveness_probe is None,
        over.http_port is None,
        over.external_port is None,
        over.lifecycle is None,
        over.command.len() == 0,
        over.hosts.len() == 0,
        over.host_aliases.len() == 0,
        over.tolerations.len() == 0,
        over.volume_mounts.len() == 0,
        over.init_containers.len() == 0,
        over.volumes.len() == 0,
        over.cron_jobs.len() == 0,
        over.dependencies.len() == 0,
        over.sidecars.len() == 0,
        over.workers.len() == 0,
        over.labels.len() == 0,
        over.source_ranges.len() == 0,
        over.ports.len() == 0,
    ensures
        merged(base, over) == base,
{
    assert(merged(base, over).env =~= base.env);
    assert(merged(base, over).secret_files =~= base.secret_files);
    assert(merged(base, over).service_annotations =~= base.service_annotations);
}

/// Replaces `base` by `over` where `over` holds a value.
fn replace_if_some<T>(base: &mut Option<T>, over: Option<T>)
    ensures
        *final(base) == pick(*old(base), over),
{
    if over.is_some() {
        *base = over;
    }
}

/// Replaces `base` by `over` unless `over` is empty.
fn replace_if_filled<T>(base: &mut Vec<T>, over: Vec<T>)
    ensures
        final(base)@ == pick_seq(old(base)@, over@),
        over@.len() > 0 ==> *final(base) == over,
        over@.len() == 0 ==> *final(base) == *old(base),
{
    if over.len() > 0 {
        *base = over;
    }
}

impl Manifest {
    /// Merges the override `mf` into the manifest.
    ///
    /// An override that carries a name or regions, or a gateway block beside
    /// the manifest's own, is refused and leaves the manifest as it was.
    pub fn merge(&mut self, mf: Manifest) -> (r: Result<(), Error>)
        ensures
            match r {
                Ok(_) => merge_conflict(old(self)@, mf@) is None && final(self)@ == merged(
                    old(self)@,
                    mf@,
                ),
                Err(e) => merge_conflict(old(self)@, mf@) matches Some(c) && e
                    == Error::MergeConflict(c) && *final(self) == *old(self),
            },
    {
        if !mf.name.as_str().is_empty() {
            return Err(Error::MergeConflict(MergeConflict::Renamed));
        }
        if self.kong.is_some() && mf.kong.is_some() {
            return Err(Error::MergeConflict(MergeConflict::KongTwice));
        }
        if mf.regions.len() > 0 {
            return Err(Error::MergeConflict(MergeConflict::RegionsOverridden));
        }
        self.env.extend(mf.env);
        self.secret_files.extend(mf.secret_files);
        self.service_annotations.extend(mf.service_annotations);
        replace_if_some(&mut self.chart, mf.chart);
        replace_if_some(&mut self.image, mf.image);
        replace_if_some(&mut self.image_size, mf.image_size);
        replace_if_some(&mut self.version, mf.version);
        replace_if_some(&mut self.metadata, mf.metadata);
        replace_if_some(&mut self.data_handling, mf.data_handling);
        replace_if_some(&mut self.language, mf.language);
        replace_if_some(&mut self.replica_count, mf.replica_count);
        replace_if_some(&mut self.configs, mf.configs);
        replace_if_some(&mut self.resources, mf.resources);
        replace_if_some(&mut self.kafka, mf.kafka);
        replace_if_some(&mut self.kong, mf.kong);
        replace_if_some(&mut self.vault, mf.vault);
        replace_if_some(&mut self.rolling_update, mf.rolling_update);
        replace_if_some(&mut self.auto_scaling, mf.auto_scaling);
        replace_if_some(&mut self.health, mf.health);
        replace_if_some(&mut self.readiness_probe, mf.readiness_probe);
        replace_if_some(&mut self.liveness_probe, mf.liveness_probe);
        replace_if_some(&mut self.http_port, mf.http_port);
        replace_if_some(&mut self.external_port, mf.external_port);
        replace_if_some(&mut self.lifecycle, mf.lifecycle);
        replace_if_filled(&mut self.command, mf.command);
        replace_if_filled(&mut self.hosts, mf.hosts);
        replace_if_filled(&mut self.host_aliases, mf.host_aliases);
        replace_if_filled(&mut self.tolerations, mf.tolerations);
        replace_if_filled(&mut self.volume_mounts, mf.volume_mounts);
        replace_if_filled(&mut self.init_containers, mf.init_containers);
        replace_if_filled(&mut self.volumes, mf.volumes);
        replace_if_filled(&mut self.cron_jobs, mf.cron_jobs);
        replace_if_filled(&mut self.dependencies, mf.dependencies);
        replace_if_filled(&mut self.sidecars, mf.sidecars);
        replace_if_filled(&mut self.workers, mf.workers);
        replace_if_filled(&mut self.labels, mf.labels);
        replace_if_filled(&mut self.source_ranges, mf.source_ranges);
        replace_if_filled(&mut self.ports, mf.ports);
        Ok(())
    }
}

} // verus!
