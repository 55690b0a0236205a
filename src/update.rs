//! The decision of the update check: which published release is the newest
//! for a major version, and whether the declared one is it.

use vstd::prelude::*;

use crate::schema::{MinecraftMajorVersion, MinecraftVersion};
use crate::text::contains_string;

verus! {

/// One release published on a registry, reduced to what the check reads.
#[derive(Clone, Debug)]
pub struct Release {
    /// Registry identifier of the release.
    pub id: String,
    /// Version number shown for the release.
    pub version_number: String,
    /// Game versions and loaders the release declares.
    pub tags: Vec<String>,
    /// Publication time, in milliseconds since the epoch.
    pub published: i64,
}

/// Outcome of the update check for one plugin and major version.
#[derive(Clone, Debug, PartialEq, Eq)]
pub enum UpdateStatus {
    /// The declared release is the newest one.
    UpToDate,
    /// A different release is the newest one.
    Newer { version_number: String, id: String },
    /// No release declares any minor version of the major version.
    NotFound,
}

/// The concrete versions of a major version, oldest first.
pub open spec fn minors_of(m: MinecraftMajorVersion) -> Seq<MinecraftVersion> {
    match m {
        MinecraftMajorVersion::V1_14 => seq![MinecraftVersion::V1_14_4],
        MinecraftMajorVersion::V1_15 => seq![
            MinecraftVersion::V1_15,
            MinecraftVersion::V1_15_1,
            MinecraftVersion::V1_15_2,
        ],
        MinecraftMajorVersion::V1_16 => seq![
            MinecraftVersion::V1_16_2,
            MinecraftVersion::V1_16_3,
            MinecraftVersion::V1_16_4,
            MinecraftVersion::V1_16_5,
        ],
        MinecraftMajorVersion::V1_17 => seq![MinecraftVersion::V1_17_1],
        MinecraftMajorVersion::V1_18 => seq![MinecraftVersion::V1_18_1, MinecraftVersion::V1_18_2],
        MinecraftMajorVersion::V1_19 => seq![
            MinecraftVersion::V1_19,
            MinecraftVersion::V1_19_1,
            MinecraftVersion::V1_19_2,
            MinecraftVersion::V1_19_3,
            MinecraftVersion::V1_19_4,
        ],
        MinecraftMajorVersion::V1_20 => seq![MinecraftVersion::V1_20, MinecraftVersion::V1_20_1],
    }
}

impl MinecraftMajorVersion {
    /// The concrete versions of this major version, oldest first.
    pub fn minors(&self) -> (r: Vec<MinecraftVersion>)
        ensures
            r@ == minors_of(*self),
            forall|i: int| 0 <= i < r@.len() ==> (#[trigger] r@[i]).spec_major() == *self,
    {
        let r = match self {
            MinecraftMajorVersion::V1_14 => vec![MinecraftVersion::V1_14_4],
            MinecraftMajorVersion::V1_15 => vec![
                MinecraftVersion::V1_15,
                MinecraftVersion::V1_15_1,
                MinecraftVersion::V1_15_2,
            ],
            MinecraftMajorVersion::V1_16 => vec![
                MinecraftVersion::V1_16_2,
                MinecraftVersion::V1_16_3,
                MinecraftVersion::V1_16_4,
                MinecraftVersion::V1_16_5,
            ],
            MinecraftMajorVersion::V1_17 => vec![MinecraftVersion::V1_17_1],
            MinecraftMajorVersion::V1_18 => vec![MinecraftVersion::V1_18_1, MinecraftVersion::V1_18_2],
            MinecraftMajorVersion::V1_19 => vec![
                MinecraftVersion::V1_19,
                MinecraftVersion::V1_19_1,
                MinecraftVersion::V1_19_2,
                MinecraftVersion::V1_19_3,
                MinecraftVersion::V1_19_4,
            ],
            MinecraftMajorVersion::V1_20 => vec![MinecraftVersion::V1_20, MinecraftVersion::V1_20_1],
        };
        assert(r@ =~= minors_of(*self));
        r
    }
}

/// The release declares the minor version, and the loader tag if one is asked for.
pub open spec fn declares(r: Release, minor: MinecraftVersion, loader: Option<Seq<char>>) -> bool {
    &&& r.tags.deep_view().contains(minor.spec_name())
    &&& (loader matches Some(l) ==> r.tags.deep_view().contains(l))
}

/// Release `i` is the newest that declares the minor version; of several
/// published at the same time, the one listed last.
pub open spec fn is_newest(
    rs: Seq<Release>,
    i: int,
    minor: MinecraftVersion,
    loader: Option<Seq<char>>,
) -> bool {
    &&& 0 <= i < rs.len()
    &&& declares(rs[i], minor, loader)
    &&& forall|j: int|
        0 <= j < rs.len() && declares(#[trigger] rs[j], minor, loader) ==> rs[j].published
            < rs[i].published || (rs[j].published == rs[i].published && j <= i)
}

pub open spec fn any_declares(rs: Seq<Release>, minor: MinecraftVersion, loader: Option<Seq<char>>) -> bool {
    exists|j: int| 0 <= j < rs.len() && declares(#[trigger] rs[j], minor, loader)
}

fn declares_exec(r: &Release, minor: MinecraftVersion, loader: &Option<String>) -> (b: bool)
    ensures
        b == declares(*r, minor, crate::config::opt_view(*loader)),
{
    let name = minor.name().to_owned();
    if !contains_string(&r.tags, &name) {
        return false;
    }
    match loader {
        Some(l) => contains_string(&r.tags, l),
        None => true,
    }
}

/// The newest release that declares the minor version, if any does.
pub fn newest_release(rs: &Vec<Release>, minor: MinecraftVersion, loader: &Option<String>) -> (r:
    Option<usize>)
    ensures
        r is None <==> !any_declares(rs@, minor, crate::config::opt_view(*loader)),
        r matches Some(i) ==> is_newest(rs@, i as int, minor, crate::config::opt_view(*loader)),
{
    let ghost l = crate::config::opt_view(*loader);
    let mut best: Option<usize> = None;
    let mut j: usize = 0;
    while j < rs.len()
        invariant
            j <= rs.len(),
            l == crate::config::opt_view(*loader),
            best is None <==> !(exists|k: int| 0 <= k < j && declares(#[trigger] rs@[k], minor, l)),
            best matches Some(i) ==> i < j && declares(rs@[i as int], minor, l) && forall|k: int|
                0 <= k < j && declares(#[trigger] rs@[k], minor, l) ==> rs@[k].published
                    < rs@[i as int].published || (rs@[k].published == rs@[i as int].published
                    && k <= i),
        decreases rs.len() - j,
    {
        if declares_exec(&rs[j], minor, loader) {
            match best {
                None => {
                    best = Some(j);
                },
                Some(i) => {
                    if rs[j].published >= rs[i].published {
                        best = Some(j);
                    }
                },
            }
        }
        j = j + 1;
    }
    best
}

/// The check found release `i` newest for minor `k` of the major version,
/// and no newer minor is declared by any release.
pub open spec fn found_at(
    rs: Seq<Release>,
    major: MinecraftMajorVersion,
    loader: Option<Seq<char>>,
    k: int,
    i: int,
) -> bool {
    &&& 0 <= k < minors_of(major).len()
    &&& is_newest(rs, i, minors_of(major)[k], loader)
    &&& forall|k2: int| k < k2 < minors_of(major).len() ==> !any_declares(
        rs,
        #[trigger] minors_of(major)[k2],
        loader,
    )
}

/// The update check of one plugin and major version: the newest minor
/// version that some release declares is taken, and its newest release is
/// compared with the declared one by version number and by identifier.
pub fn update_status(
    rs: &Vec<Release>,
    major: MinecraftMajorVersion,
    loader: &Option<String>,
    current: &str,
) -> (r: UpdateStatus)
    ensures
        r is NotFound <==> forall|k: int|
            0 <= k < minors_of(major).len() ==> !any_declares(
                rs@,
                #[trigger] minors_of(major)[k],
                crate::config::opt_view(*loader),
            ),
        !(r is NotFound) ==> exists|k: int, i: int|
            found_at(rs@, major, crate::config::opt_view(*loader), k, i) && (r is UpToDate <==> (
            rs@[i].version_number@ == current@ || rs@[i].id@ == current@)) && (r matches UpdateStatus::Newer {
                version_number,
                id,
            } ==> version_number@ == rs@[i].version_number@ && id@ == rs@[i].id@),
{
    let ghost l = crate::config::opt_view(*loader);
    let minors = major.minors();
    let mut k: usize = minors.len();
    while k > 0
        invariant
            k <= minors@.len(),
            minors@ == minors_of(major),
            l == crate::config::opt_view(*loader),
            forall|k2: int| k <= k2 < minors@.len() ==> !any_declares(rs@, #[trigger] minors_of(major)[k2], l),
        decreases k,
    {
        let minor = minors[k - 1];
        match newest_release(rs, minor, loader) {
            Some(i) => {
                let latest = &rs[i];
                let same = crate::command::text_eq(latest.version_number.as_str(), current)
                    || crate::command::text_eq(latest.id.as_str(), current);
                assert(found_at(rs@, major, l, k - 1, i as int));
                if same {
                    return UpdateStatus::UpToDate;
                } else {
                    return UpdateStatus::Newer {
                        version_number: latest.version_number.clone(),
                        id: latest.id.clone(),
                    };
                }
            },
            None => {},
        }
        k = k - 1;
    }
    UpdateStatus::NotFound
}

} // verus!
