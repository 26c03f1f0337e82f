//! Rows handed to whoever writes a report, and the text of an image reference.

use crate::error::{Attribution, Error};
use crate::manifest::{Image, ImageView, Manifest};
use crate::order::{measure, ResourceOrder};
use crate::totals::ResourceTotals;
use vstd::prelude::*;

verus! {

/// What is reported of a service: its name, the team that owns it, and the
/// CPU in millicores and the memory in bytes that it requests.
#[derive(Clone, Debug, PartialEq, Eq)]
pub struct ResourceRow {
    pub name: String,
    pub team: String,
    pub cpu: u64,
    pub memory: u64,
}

/// What is reported of a group: its label, and the CPU in millicores and the
/// memory in bytes that its services request.
#[derive(Clone, Debug, PartialEq, Eq)]
pub struct TeamRow {
    pub team: String,
    pub cpu: u64,
    pub memory: u64,
}

/// The row that reports the manifest `m` with the totals `t`, by the lower
/// or the upper bound.
pub open spec fn resource_row(m: Manifest, t: ResourceTotals, upper: bool) -> ResourceRow {
    ResourceRow {
        name: m.name,
        team: m.metadata->0.team,
        cpu: measure(t, ResourceOrder::Cpu, upper),
        memory: measure(t, ResourceOrder::Memory, upper),
    }
}

/// The row that reports the group `label` with the totals `t`.
pub open spec fn team_row(label: String, t: ResourceTotals, upper: bool) -> TeamRow {
    TeamRow {
        team: label,
        cpu: measure(t, ResourceOrder::Cpu, upper),
        memory: measure(t, ResourceOrder::Memory, upper),
    }
}

/// The place of the first manifest from place `i` on that has no metadata.
pub open spec fn first_without_metadata(rows: Seq<(Manifest, ResourceTotals)>, i: int) -> Option<
    int,
>
    decreases rows.len() - i,
{
    if i < 0 || i >= rows.len() {
        None
    } else if rows[i].0.metadata is None {
        Some(i)
    } else {
        first_without_metadata(rows, i + 1)
    }
}

/// The rows that report `rows`, in their order. A manifest without metadata
/// is an error, since it names no team.
pub fn resource_rows(rows: &Vec<(Manifest, ResourceTotals)>, upper_bounds: bool) -> (r: Result<
    Vec<ResourceRow>,
    Error,
>)
    ensures
        match r {
            Ok(out) => first_without_metadata(rows@, 0) is None && out@ == Seq::new(
                rows@.len(),
                |i: int| resource_row(rows@[i].0, rows@[i].1, upper_bounds),
            ),
            Err(e) => first_without_metadata(rows@, 0) matches Some(i) && e == Error::Attribution(
                Attribution::NoMetadata(i as usize),
            ),
        },
{
    let mut out: Vec<ResourceRow> = Vec::new();
    let mut i: usize = 0;
    while i < rows.len()
        invariant
            i <= rows.len(),
            first_without_metadata(rows@, 0) == first_without_metadata(rows@, i as int),
            out@ == Seq::new(
                i as nat,
                |j: int| resource_row(rows@[j].0, rows@[j].1, upper_bounds),
            ),
        decreases rows.len() - i,
    {
        let team = match &rows[i].0.metadata {
            Some(md) => md.team.clone(),
            None => {
                return Err(Error::Attribution(Attribution::NoMetadata(i)));
            },
        };
        out.push(
            ResourceRow {
                name: rows[i].0.name.clone(),
                team,
                cpu: rows[i].1.measure(ResourceOrder::Cpu, upper_bounds),
                memory: rows[i].1.measure(ResourceOrder::Memory, upper_bounds),
            },
        );
        assert(out@ =~= Seq::new(
            (i + 1) as nat,
            |j: int| resource_row(rows@[j].0, rows@[j].1, upper_bounds),
        ));
        i += 1;
    }
    Ok(out)
}

/// The rows that report the groups `rows`, in their order.
pub fn team_rows(rows: &Vec<(String, ResourceTotals)>, upper_bounds: bool) -> (out: Vec<TeamRow>)
    ensures
        out@ == Seq::new(rows@.len(), |i: int| team_row(rows@[i].0, rows@[i].1, upper_bounds)),
{
    let mut out: Vec<TeamRow> = Vec::new();
    let mut i: usize = 0;
    while i < rows.len()
        invariant
            i <= rows.len(),
            out@ == Seq::new(i as nat, |j: int| team_row(rows@[j].0, rows@[j].1, upper_bounds)),
        decreases rows.len() - i,
    {
        out.push(
            TeamRow {
                team: rows[i].0.clone(),
                cpu: rows[i].1.measure(ResourceOrder::Cpu, upper_bounds),
                memory: rows[i].1.measure(ResourceOrder::Memory, upper_bounds),
            },
        );
        assert(out@ =~= Seq::new(
            (i + 1) as nat,
            |j: int| team_row(rows@[j].0, rows@[j].1, upper_bounds),
        ));
        i += 1;
    }
    out
}

/// The text of an image reference: the repository and a slash, unless the
/// repository is left out or empty; the name; a colon; the tag, or `latest`
/// where it is left out.
pub open spec fn image_text(i: ImageView) -> Seq<char> {
    let prefix = match i.repository {
        Some(r) => if r.len() > 0 {
            r + "/"@
        } else {
            r
        },
        None => Seq::empty(),
    };
    let suffix = match i.tag {
        Some(t) => t,
        None => "latest"@,
    };
    prefix + i.name->0 + ":"@ + suffix
}

impl Image {
    /// The reference to the image, as text. The image has to have a name.
    pub fn to_text(&self) -> (r: String)
        requires
            self.name is Some,
        ensures
            r@ == image_text(self@),
    {
        let mut out = String::new();
        if let Some(repository) = &self.repository {
            out.append(repository.as_str());
            if !repository.as_str().is_empty() {
                out.append("/");
            }
        }
        if let Some(name) = &self.name {
            out.append(name.as_str());
        }
        out.append(":");
        match &self.tag {
            Some(tag) => {
                out.append(tag.as_str());
            },
            None => {
                out.append("latest");
            },
        }
        assert(out@ =~= image_text(self@));
        out
    }
}

} // verus!
