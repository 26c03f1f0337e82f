//! What can be asked of a region: its cluster, its gateway routes, and the
//! resources of its services by team.

use crate::config::{
    cluster_info, count_serving, first_serving, view_of_info, ClusterInfo, Config, ExtraApi,
};
use crate::error::{Ambiguity, Error, SourceError};
use crate::group::{grand_total, group_sum, Labelled};
use crate::manifest::{view_of_image, Manifest};
use crate::report::image_text;
use crate::strmap::{texts_of, StrMap};
use crate::text::{clone_strings, contains_name, names_contain, str_eq};
use crate::totals::{lemma_totals_sum_zero, totals_sum, totals_zero, ResourceTotals};
use vstd::prelude::*;

verus! {

    /// Finds the cluster behind the context `ctx` and says what is known of it.
    pub fn clusterinfo(conf: &Config, ctx: &str) -> (r: Result<ClusterInfo, Error>)
        ensures
            view_of_info(r) == cluster_info(*conf, ctx@),
    {
        let (region, reg) = conf.get_region(ctx)?;
        if let Some(cluster) = conf.clusters.get(ctx) {
            return Ok(
                ClusterInfo {
                    region: region.clone(),
                    namespace: reg.namespace.clone(),
                    environment: reg.environment.clone(),
                    apiserver: cluster.api.clone(),
                    cluster: region,
                    vault: reg.vault.url.clone(),
                },
            );
        }
        let mut count: usize = 0;
        let mut found: Option<usize> = None;
        let mut i: usize = 0;
        while i < conf.clusters.len()
            invariant
                i <= conf.clusters.entries().len(),
                count == count_serving(conf.clusters.entries(), region@, i as int),
                count <= i,
                match found {
                    None => count == 0 && first_serving(conf.clusters.entries(), region@, 0)
                        == first_serving(conf.clusters.entries(), region@, i as int),
                    Some(j) => count > 0 && j < i && first_serving(
                        conf.clusters.entries(),
                        region@,
                        0,
                    ) == Some(j as int),
                },
            decreases conf.clusters.entries().len() - i,
        {
            if contains_name(&conf.clusters.value(i).regions, region.as_str()) {
                count += 1;
                if found.is_none() {
                    found = Some(i);
                }
            }
            i += 1;
        }
        match found {
            Some(j) => {
                if count == 1 {
                    Ok(
                        ClusterInfo {
                            region,
                            namespace: reg.namespace.clone(),
                            environment: reg.environment.clone(),
                            apiserver: conf.clusters.value(j).api.clone(),
                            cluster: conf.clusters.key(j).clone(),
                            vault: reg.vault.url.clone(),
                        },
                    )
                } else {
                    Err(Error::Ambiguity(Ambiguity::Clusters(count)))
                }
            },
            None => Err(Error::Ambiguity(Ambiguity::Clusters(count))),
        }
    }

/// The resources of a set of services: all together, and team by team.
#[derive(Clone, Debug, PartialEq, Eq)]
pub struct ResourceBreakdown {
    pub totals: ResourceTotals,
    pub teams: StrMap<ResourceTotals>,
}

/// The totals of `rows`, each with the team that owns its service.
pub open spec fn team_labels(rows: Seq<(Manifest, ResourceTotals)>) -> Seq<Labelled> {
    Seq::new(
        rows.len(),
        |i: int|
            (
                match rows[i].0.metadata {
                    Some(md) => Some(md.team@),
                    None => None,
                },
                rows[i].1,
            ),
    )
}

/// For each of the first `n` teams, the sum of the totals of its services.
pub open spec fn team_totals(teams: Seq<String>, ls: Seq<Labelled>, n: int) -> Map<
    Seq<char>,
    ResourceTotals,
>
    decreases n,
{
    if n <= 0 {
        Map::empty()
    } else {
        team_totals(teams, ls, n - 1).insert(teams[n - 1]@, group_sum(ls, teams[n - 1]@))
    }
}

/// What a region's breakdown holds for the team `team`: nothing where it
/// does not know the team.
pub open spec fn share(b: ResourceBreakdown, team: Seq<char>) -> ResourceTotals {
    if b.teams@.contains_key(team) {
        b.teams@[team]
    } else {
        totals_zero()
    }
}

/// The sum of what the first `n` breakdowns hold for the team `team`.
pub open spec fn team_sum(bs: Seq<ResourceBreakdown>, team: Seq<char>, n: int) -> ResourceTotals
    decreases n,
{
    if n <= 0 {
        totals_zero()
    } else {
        totals_sum(team_sum(bs, team, n - 1), share(bs[n - 1], team))
    }
}

/// The sum of the totals of the first `n` breakdowns.
pub open spec fn sum_of_totals(bs: Seq<ResourceBreakdown>, n: int) -> ResourceTotals
    decreases n,
{
    if n <= 0 {
        totals_zero()
    } else {
        totals_sum(sum_of_totals(bs, n - 1), bs[n - 1].totals)
    }
}

/// For each of the first `n` teams, the sum of what the breakdowns hold for it.
pub open spec fn team_sums(teams: Seq<String>, bs: Seq<ResourceBreakdown>, n: int) -> Map<
    Seq<char>,
    ResourceTotals,
>
    decreases n,
{
    if n <= 0 {
        Map::empty()
    } else {
        team_sums(teams, bs, n - 1).insert(
            teams[n - 1]@,
            team_sum(bs, teams[n - 1]@, bs.len() as int),
        )
    }
}

/// The sum of the totals of the services of the team `team`.
fn sum_for_team(rows: &Vec<(Manifest, ResourceTotals)>, team: &str) -> (r: ResourceTotals)
    ensures
        r == group_sum(team_labels(rows@), team@),
{
    let ghost ls = team_labels(rows@);
    let mut sum = ResourceTotals::zero();
    let mut i: usize = 0;
    assert(ls.take(0) =~= Seq::<Labelled>::empty());
    while i < rows.len()
        invariant
            i <= rows.len(),
            ls == team_labels(rows@),
            sum == group_sum(ls.take(i as int), team@),
        decreases rows.len() - i,
    {
        proof {
            assert(ls.take(i + 1).drop_last() =~= ls.take(i as int));
            assert(ls.take(i + 1).last() == ls[i as int]);
        }
        if let Some(md) = &rows[i].0.metadata {
            if str_eq(md.team.as_str(), team) {
                sum = sum.plus(&rows[i].1);
            }
        }
        i += 1;
    }
    assert(ls.take(ls.len() as int) =~= ls);
    sum
}

/// The resources of the services `rows` of one region: all together, and
/// for each of `teams` the sum over the services that the team owns.
pub fn resources(teams: &Vec<String>, rows: &Vec<(Manifest, ResourceTotals)>) -> (r:
    ResourceBreakdown)
    ensures
        r.totals == grand_total(team_labels(rows@)),
        r.teams@ == team_totals(teams@, team_labels(rows@), teams@.len() as int),
{
    let ghost ls = team_labels(rows@);
    let mut totals = ResourceTotals::zero();
    let mut i: usize = 0;
    assert(ls.take(0) =~= Seq::<Labelled>::empty());
    while i < rows.len()
        invariant
            i <= rows.len(),
            ls == team_labels(rows@),
            totals == grand_total(ls.take(i as int)),
        decreases rows.len() - i,
    {
        proof {
            assert(ls.take(i + 1).drop_last() =~= ls.take(i as int));
            assert(ls.take(i + 1).last() == ls[i as int]);
        }
        totals = totals.plus(&rows[i].1);
        i += 1;
    }
    assert(ls.take(ls.len() as int) =~= ls);
    let mut by_team: StrMap<ResourceTotals> = StrMap::new();
    let mut j: usize = 0;
    while j < teams.len()
        invariant
            j <= teams.len(),
            by_team@ == team_totals(teams@, team_labels(rows@), j as int),
        decreases teams.len() - j,
    {
        let sum = sum_for_team(rows, teams[j].as_str());
        by_team.insert(teams[j].clone(), sum);
        j += 1;
    }
    ResourceBreakdown { totals, teams: by_team }
}

/// The sum of what the breakdowns hold for the team `team`.
fn sum_of_shares(regions: &Vec<ResourceBreakdown>, team: &str) -> (r: ResourceTotals)
    ensures
        r == team_sum(regions@, team@, regions@.len() as int),
{
    let mut sum = ResourceTotals::zero();
    let mut i: usize = 0;
    while i < regions.len()
        invariant
            i <= regions.len(),
            sum == team_sum(regions@, team@, i as int),
        decreases regions.len() - i,
    {
        if let Some(t) = regions[i].teams.get(team) {
            sum = sum.plus(t);
        } else {
            proof {
                lemma_totals_sum_zero(sum);
            }
        }
        i += 1;
    }
    sum
}

/// The resources of all regions: the sum of their totals, and for each of
/// `teams` the sum of what the regions hold for it.
pub fn totalresources(teams: &Vec<String>, regions: &Vec<ResourceBreakdown>) -> (r:
    ResourceBreakdown)
    ensures
        r.totals == sum_of_totals(regions@, regions@.len() as int),
        r.teams@ == team_sums(teams@, regions@, teams@.len() as int),
{
    let mut totals = ResourceTotals::zero();
    let mut i: usize = 0;
    while i < regions.len()
        invariant
            i <= regions.len(),
            totals == sum_of_totals(regions@, i as int),
        decreases regions.len() - i,
    {
        totals = totals.plus(&regions[i].totals);
        i += 1;
    }
    let mut by_team: StrMap<ResourceTotals> = StrMap::new();
    let mut j: usize = 0;
    while j < teams.len()
        invariant
            j <= teams.len(),
            by_team@ == team_sums(teams@, regions@, j as int),
        decreases teams.len() - j,
    {
        let sum = sum_of_shares(regions, teams[j].as_str());
        by_team.insert(teams[j].clone(), sum);
        j += 1;
    }
    ResourceBreakdown { totals, teams: by_team }
}

/// The service of the manifest `m` is deployed to the region `region`.
pub open spec fn deployed(m: Manifest, region: Seq<char>) -> bool {
    names_contain(m.regions@, region)
}

/// The versions of the services among the first `n` manifests that are
/// deployed to the region and name a version, by the name of the service.
pub open spec fn versions_upto(ms: Seq<Manifest>, region: Seq<char>, n: int) -> Map<
    Seq<char>,
    String,
>
    decreases n,
{
    if n <= 0 {
        Map::empty()
    } else if deployed(ms[n - 1], region) && ms[n - 1].version is Some {
        versions_upto(ms, region, n - 1).insert(ms[n - 1].name@, ms[n - 1].version->0)
    } else {
        versions_upto(ms, region, n - 1)
    }
}

/// The manifest `m` names an image that can be written out.
pub open spec fn has_image(m: Manifest) -> bool {
    m.image is Some && m.image->0.name is Some
}

/// The images of the services among the first `n` manifests that are
/// deployed to the region and name an image, by the name of the service.
pub open spec fn images_upto(ms: Seq<Manifest>, region: Seq<char>, n: int) -> Map<
    Seq<char>,
    Seq<char>,
>
    decreases n,
{
    if n <= 0 {
        Map::empty()
    } else if deployed(ms[n - 1], region) && has_image(ms[n - 1]) {
        images_upto(ms, region, n - 1).insert(
            ms[n - 1].name@,
            image_text(view_of_image(ms[n - 1].image)->0),
        )
    } else {
        images_upto(ms, region, n - 1)
    }
}

/// The version of each service that is deployed to the region and names one.
pub fn versions(manifests: &Vec<Manifest>, region: &str) -> (r: StrMap<String>)
    ensures
        r@ == versions_upto(manifests@, region@, manifests@.len() as int),
{
    let mut out: StrMap<String> = StrMap::new();
    let mut i: usize = 0;
    while i < manifests.len()
        invariant
            i <= manifests.len(),
            out@ == versions_upto(manifests@, region@, i as int),
        decreases manifests.len() - i,
    {
        if contains_name(&manifests[i].regions, region) {
            if let Some(v) = &manifests[i].version {
                out.insert(manifests[i].name.clone(), v.clone());
            }
        }
        i += 1;
    }
    out
}

/// The image of each service that is deployed to the region and names one.
pub fn images(manifests: &Vec<Manifest>, region: &str) -> (r: StrMap<String>)
    ensures
        texts_of(r@) == images_upto(manifests@, region@, manifests@.len() as int),
{
    let mut out: StrMap<String> = StrMap::new();
    let mut i: usize = 0;
    assert(texts_of(out@) =~= images_upto(manifests@, region@, 0));
    while i < manifests.len()
        invariant
            i <= manifests.len(),
            texts_of(out@) == images_upto(manifests@, region@, i as int),
        decreases manifests.len() - i,
    {
        if contains_name(&manifests[i].regions, region) {
            if let Some(image) = &manifests[i].image {
                if image.name.is_some() {
                    let ghost before = out@;
                    let text = image.to_text();
                    out.insert(manifests[i].name.clone(), text);
                    assert(texts_of(out@) =~= texts_of(before).insert(
                        manifests@[i as int].name@,
                        text@,
                    ));
                }
            }
        }
        i += 1;
    }
    out
}

/// How a service is reached through the gateway.
#[derive(Clone, Debug, PartialEq, Eq)]
pub struct ApiServiceParams {
    pub hosts: String,
    pub uris: String,
    pub internal: bool,
    pub publicly_accessible: bool,
}

/// How a service is reached, as plain values.
pub struct ApiServiceParamsView {
    pub hosts: Seq<char>,
    pub uris: Seq<char>,
    pub internal: bool,
    pub publicly_accessible: bool,
}

impl View for ApiServiceParams {
    type V = ApiServiceParamsView;

    open spec fn view(&self) -> ApiServiceParamsView {
        ApiServiceParamsView {
            hosts: self.hosts@,
            uris: self.uris@,
            internal: self.internal,
            publicly_accessible: self.publicly_accessible,
        }
    }
}

/// What is reported of a region.
#[derive(Clone, Debug, PartialEq, Eq)]
pub struct EnvironmentInfo {
    pub name: String,
    /// What host names of services end in.
    pub services_suffix: String,
    /// Address of the services; empty where the region names none.
    pub base_url: String,
    pub ip_whitelist: Vec<String>,
}

/// The routes of a region's gateway, and the region itself.
#[derive(Clone, Debug, PartialEq, Eq)]
pub struct ApiStatusOutput {
    pub environment: EnvironmentInfo,
    pub services: StrMap<ApiServiceParams>,
}

/// The characters of an optional string; none where it is left out.
pub open spec fn text_or_empty(s: Option<String>) -> Seq<char> {
    match s {
        Some(s) => s@,
        None => Seq::empty(),
    }
}

/// The manifest `m` has a route in the region `region`: it is deployed there
/// and has a gateway block.
pub open spec fn routed(m: Manifest, region: Seq<char>) -> bool {
    deployed(m, region) && m.kong is Some
}

/// How the service of the manifest `m` is reached.
pub open spec fn params_of(m: Manifest) -> ApiServiceParamsView {
    ApiServiceParamsView {
        hosts: text_or_empty(m.kong->0.hosts),
        uris: text_or_empty(m.kong->0.uris),
        internal: m.kong->0.internal,
        publicly_accessible: m.publicly_accessible,
    }
}

/// How the route `a`, which belongs to no service, is reached.
pub open spec fn params_of_extra(a: ExtraApi) -> ApiServiceParamsView {
    ApiServiceParamsView {
        hosts: text_or_empty(a.hosts),
        uris: text_or_empty(a.uris),
        internal: a.internal,
        publicly_accessible: a.publicly_accessible,
    }
}

/// The routes of the first `n` manifests in the region, by the name of the
/// service; of two manifests with the same name the later one counts.
pub open spec fn service_routes(ms: Seq<Manifest>, region: Seq<char>, n: int) -> Map<
    Seq<char>,
    ApiServiceParamsView,
>
    decreases n,
{
    if n <= 0 {
        Map::empty()
    } else if routed(ms[n - 1], region) {
        service_routes(ms, region, n - 1).insert(ms[n - 1].name@, params_of(ms[n - 1]))
    } else {
        service_routes(ms, region, n - 1)
    }
}

/// `start` with the first `n` of the routes `es` put in, each in the place
/// of a route of the same name.
pub open spec fn with_extras(
    start: Map<Seq<char>, ApiServiceParamsView>,
    es: Seq<(String, ExtraApi)>,
    n: int,
) -> Map<Seq<char>, ApiServiceParamsView>
    decreases n,
{
    if n <= 0 {
        start
    } else {
        with_extras(start, es, n - 1).insert(es[n - 1].0@, params_of_extra(es[n - 1].1))
    }
}

/// The routes `m` as plain values.
pub open spec fn views_of_routes(m: Map<Seq<char>, ApiServiceParams>) -> Map<
    Seq<char>,
    ApiServiceParamsView,
> {
    m.map_values(|p: ApiServiceParams| p@)
}

/// A copy of an optional string; the empty string where it is left out.
fn text_or_default(s: &Option<String>) -> (r: String)
    ensures
        r@ == text_or_empty(*s),
{
    match s {
        Some(s) => s.clone(),
        None => String::new(),
    }
}

/// The routes of the gateway of the region `region`: those of the services
/// `manifests` that are deployed there, then those that belong to no service.
pub fn apistatus(conf: &Config, region: &str, manifests: &Vec<Manifest>) -> (r: Result<
    ApiStatusOutput,
    Error,
>)
    ensures
        match r {
            Ok(out) => conf.regions@.contains_key(region@) && ({
                let reg = conf.regions@[region@];
                &&& out.environment.name@ == region@
                &&& out.environment.services_suffix == reg.kong.base_url
                &&& out.environment.base_url@ == (if reg.base_urls@.contains_key("services"@) {
                    reg.base_urls@["services"@]@
                } else {
                    Seq::<char>::empty()
                })
                &&& out.environment.ip_whitelist@ == reg.ip_whitelist@
                &&& views_of_routes(out.services@) == with_extras(
                    service_routes(manifests@, region@, manifests@.len() as int),
                    reg.kong.extra_apis.entries(),
                    reg.kong.extra_apis.entries().len() as int,
                )
            }),
            Err(e) => !conf.regions@.contains_key(region@) && e == Error::Source(
                SourceError::UnknownRegion,
            ),
        },
{
    let reg = match conf.regions.get(region) {
        Some(reg) => reg,
        None => {
            return Err(Error::Source(SourceError::UnknownRegion));
        },
    };
    let environment = EnvironmentInfo {
        name: String::from_str(region),
        services_suffix: reg.kong.base_url.clone(),
        base_url: match reg.base_urls.get("services") {
            Some(u) => u.clone(),
            None => String::new(),
        },
        ip_whitelist: clone_strings(&reg.ip_whitelist),
    };
    let mut services: StrMap<ApiServiceParams> = StrMap::new();
    assert(views_of_routes(services@) =~= service_routes(manifests@, region@, 0));
    let mut i: usize = 0;
    while i < manifests.len()
        invariant
            i <= manifests.len(),
            views_of_routes(services@) == service_routes(manifests@, region@, i as int),
        decreases manifests.len() - i,
    {
        let mf = &manifests[i];
        if contains_name(&mf.regions, region) {
            if let Some(k) = &mf.kong {
                let ghost before = services@;
                let params = ApiServiceParams {
                    hosts: text_or_default(&k.hosts),
                    uris: text_or_default(&k.uris),
                    internal: k.internal,
                    publicly_accessible: mf.publicly_accessible,
                };
                services.insert(mf.name.clone(), params);
                assert(views_of_routes(services@) =~= views_of_routes(before).insert(
                    mf.name@,
                    params@,
                ));
            }
        }
        i += 1;
    }
    let ghost start = service_routes(manifests@, region@, manifests@.len() as int);
    let mut j: usize = 0;
    while j < reg.kong.extra_apis.len()
        invariant
            j <= reg.kong.extra_apis.entries().len(),
            views_of_routes(services@) == with_extras(
                start,
                reg.kong.extra_apis.entries(),
                j as int,
            ),
        decreases reg.kong.extra_apis.entries().len() - j,
    {
        let a = reg.kong.extra_apis.value(j);
        let ghost before = services@;
        let params = ApiServiceParams {
            hosts: text_or_default(&a.hosts),
            uris: text_or_default(&a.uris),
            internal: a.internal,
            publicly_accessible: a.publicly_accessible,
        };
        services.insert(reg.kong.extra_apis.key(j).clone(), params);
        assert(views_of_routes(services@) =~= views_of_routes(before).insert(
            reg.kong.extra_apis.entries()[j as int].0@,
            params@,
        ));
        j += 1;
    }
    Ok(ApiStatusOutput { environment, services })
}

} // verus!
