//! The cascade that composes the manifest of a service in a region, and the
//! validation of what it composes.

use crate::config::{ManifestDefaults, Region};
use crate::error::Error;
use crate::implicits::{
    lemma_upstream_filled, with_config_defaults, with_implicits, with_region,
    with_struct_implicits,
};
use crate::manifest::{Manifest, ManifestView};
use crate::merge::{merge_conflict, merged};
use crate::verify::{default_bounds, first_violation};
use vstd::prelude::*;

verus! {

/// What an optional manifest is, as plain values.
pub open spec fn view_of_manifest(m: Option<Manifest>) -> Option<ManifestView> {
    match m {
        Some(m) => Some(m@),
        None => None,
    }
}

/// One step of the cascade: `acc` with the override merged in, where there is
/// one and the cascade has not failed before.
pub open spec fn merge_step(acc: Result<ManifestView, Error>, over: Option<ManifestView>) -> Result<
    ManifestView,
    Error,
> {
    match acc {
        Err(e) => Err(e),
        Ok(m) => match over {
            None => Ok(m),
            Some(o) => match merge_conflict(m, o) {
                Some(c) => Err(Error::MergeConflict(c)),
                None => Ok(merged(m, o)),
            },
        },
    }
}

/// A merged manifest with every implicit value filled in: those of the
/// region first, then those of the data-handling policy, of the
/// configuration and of the manifest's own name.
pub open spec fn resolved(m: ManifestView, def: ManifestDefaults, reg: Region) -> ManifestView {
    with_implicits(with_config_defaults(with_struct_implicits(with_region(m, reg)), def))
}

/// The manifest of a service in a region: the service's own manifest with
/// the override of the environment for this service merged in, then the
/// override of the environment for all services, then resolved.
pub open spec fn composed(
    base: ManifestView,
    env_local: Option<ManifestView>,
    env_global: Option<ManifestView>,
    def: ManifestDefaults,
    reg: Region,
) -> Result<ManifestView, Error> {
    match merge_step(merge_step(Ok(base), env_local), env_global) {
        Err(e) => Err(e),
        Ok(m) => Ok(resolved(m, def, reg)),
    }
}

/// The composed manifest, if it can be composed and breaks no rule; else the
/// conflict that stopped the cascade or the first rule that is broken.
pub open spec fn validated(
    base: ManifestView,
    env_local: Option<ManifestView>,
    env_global: Option<ManifestView>,
    def: ManifestDefaults,
    reg: Region,
    services: Seq<String>,
    regions: Seq<String>,
) -> Result<ManifestView, Error> {
    match composed(base, env_local, env_global, def, reg) {
        Err(e) => Err(e),
        Ok(m) => match first_violation(m, default_bounds(), services, regions) {
            Some(e) => Err(e),
            None => Ok(m),
        },
    }
}

/// What a result that holds a manifest is, as plain values.
pub open spec fn view_of_outcome(r: Result<Manifest, Error>) -> Result<ManifestView, Error> {
    match r {
        Ok(m) => Ok(m@),
        Err(e) => Err(e),
    }
}

/// Resolving a manifest that is resolved already changes nothing.
pub proof fn lemma_resolved_idempotent(m: ManifestView, def: ManifestDefaults, reg: Region)
    ensures
        resolved(resolved(m, def, reg), def, reg) == resolved(m, def, reg),
{
    let once = resolved(m, def, reg);
    let twice = resolved(once, def, reg);
    lemma_upstream_filled(m.name, reg.namespace@);
    assert(twice.env =~= once.env);
    assert(twice.dependencies =~= once.dependencies);
    if once.data_handling is Some {
        assert(twice.data_handling->0.stores =~= once.data_handling->0.stores);
    }
}

impl Manifest {
    /// Composes the manifest of a service in a region from the service's own
    /// manifest `base`, the two overrides of the environment, where they
    /// exist, the defaults of the configuration and the region.
    pub fn completed(
        base: Manifest,
        env_local: Option<Manifest>,
        env_global: Option<Manifest>,
        def: &ManifestDefaults,
        reg: &Region,
    ) -> (r: Result<Manifest, Error>)
        ensures
            view_of_outcome(r) == composed(
                base@,
                view_of_manifest(env_local),
                view_of_manifest(env_global),
                *def,
                *reg,
            ),
    {
        let mut mf = base;
        if let Some(over) = env_local {
            mf.merge(over)?;
        }
        if let Some(over) = env_global {
            mf.merge(over)?;
        }
        let _ = mf.add_region_implicits(reg);
        let _ = mf.add_struct_implicits();
        let _ = mf.add_config_defaults(def);
        let _ = mf.implicits();
        Ok(mf)
    }
}

/// Composes the manifest of a service in a region and checks it against the
/// rules. `services` are the names of the services that exist, `regions`
/// those of the regions that have defaults.
pub fn validate(
    base: Manifest,
    env_local: Option<Manifest>,
    env_global: Option<Manifest>,
    def: &ManifestDefaults,
    reg: &Region,
    services: &Vec<String>,
    regions: &Vec<String>,
) -> (r: Result<Manifest, Error>)
    ensures
        view_of_outcome(r) == validated(
            base@,
            view_of_manifest(env_local),
            view_of_manifest(env_global),
            *def,
            *reg,
            services@,
            regions@,
        ),
{
    let mf = Manifest::completed(base, env_local, env_global, def, reg)?;
    mf.verify(services, regions)?;
    Ok(mf)
}

} // verus!
