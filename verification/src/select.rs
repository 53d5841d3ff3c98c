//! Version selection over registry records: drop yanked records, drop
//! prereleases unless allowed, and take the record of highest precedence.

use vstd::prelude::*;

use crate::bytestr::copy_byte_vecs;
use crate::dependency::{spec_version_source, spec_views, Dependency};
use crate::errors::FetchError;
use crate::version::{
    lemma_version_cmp_antisym, lemma_version_cmp_range, lemma_version_cmp_refl,
    lemma_version_cmp_trans, render_version,
    spec_is_prerelease, spec_render_version, spec_version_cmp, version_cmp, Version,
};

verus! {

/// One version of one crate as the registry index reports it.
#[derive(Debug, Clone, PartialEq, Eq)]
pub struct CrateVersion {
    /// The crate name as the registry spells it.
    pub name: Vec<u8>,
    pub version: Version,
    /// Withdrawn by the registry; never selected.
    pub yanked: bool,
    /// The feature names this version declares.
    pub available_features: Vec<Vec<u8>>,
}

/// A record survives filtering when it is not yanked and, unless prereleases
/// are allowed, not a prerelease.
pub open spec fn spec_eligible(v: CrateVersion, allow_prerelease: bool) -> bool {
    !v.yanked && (allow_prerelease || !spec_is_prerelease(v.version))
}

/// The descriptor carries the record's name, its exact rendered version as
/// the source, no requested features, and the record's declared features.
pub open spec fn spec_built_from(dep: Dependency, rec: CrateVersion) -> bool {
    &&& dep.name@ == rec.name@
    &&& spec_version_source(dep) == Some(spec_render_version(rec.version))
    &&& dep.features is None
    &&& spec_views(dep.available_features@) == spec_views(rec.available_features@)
}

/// The record at `i` is the selection: eligible, of maximal precedence among
/// the eligible records, the last such index, and `dep` is built from it.
pub open spec fn spec_selected_at(
    vs: Seq<CrateVersion>,
    allow_prerelease: bool,
    i: int,
    dep: Dependency,
) -> bool {
    &&& 0 <= i < vs.len()
    &&& spec_eligible(vs[i], allow_prerelease)
    &&& spec_built_from(dep, vs[i])
    &&& forall|j: int|
        0 <= j < vs.len() && spec_eligible(vs[j], allow_prerelease) ==> spec_version_cmp(
            vs[j].version,
            vs[i].version,
        ) <= 0
    &&& forall|j: int|
        i < j < vs.len() && spec_eligible(vs[j], allow_prerelease) ==> spec_version_cmp(
            vs[j].version,
            vs[i].version,
        ) == -1
}

/// Whether a record is a stable (non-prerelease) release.
pub fn version_is_stable(version: &CrateVersion) -> (r: bool)
    ensures
        r == !spec_is_prerelease(version.version),
{
    !version.version.is_prerelease()
}

/// Pick the best record: yanked records are never taken, prereleases only
/// when allowed, and of what remains the version of highest precedence wins,
/// the last such record when several tie. With nothing left the selection
/// fails with `NoVersionsAvailable`.
pub fn read_latest_version(versions: &Vec<CrateVersion>, flag_allow_prerelease: bool) -> (r: Result<
    Dependency,
    FetchError,
>)
    ensures
        match r {
            Ok(dep) => exists|i: int|
                spec_selected_at(versions@, flag_allow_prerelease, i, dep),
            Err(e) => {
                &&& e == FetchError::NoVersionsAvailable
                &&& forall|i: int|
                    0 <= i < versions@.len() ==> !spec_eligible(versions@[i], flag_allow_prerelease)
            },
        },
{
    let ghost vs = versions@;
    let n = versions.len();
    let mut best: Option<usize> = None;
    for idx in 0..n
        invariant
            n == vs.len(),
            versions@ == vs,
            match best {
                None => forall|j: int|
                    0 <= j < idx ==> !spec_eligible(vs[j], flag_allow_prerelease),
                Some(b) => {
                    &&& b < idx <= vs.len()
                    &&& spec_eligible(vs[b as int], flag_allow_prerelease)
                    &&& forall|j: int|
                        0 <= j < idx && spec_eligible(vs[j], flag_allow_prerelease)
                            ==> spec_version_cmp(vs[j].version, vs[b as int].version) <= 0
                    &&& forall|j: int|
                        b < j < idx && spec_eligible(vs[j], flag_allow_prerelease)
                            ==> spec_version_cmp(vs[j].version, vs[b as int].version) == -1
                },
            },
    {
        let eligible = !versions[idx].yanked && (flag_allow_prerelease || version_is_stable(
            &versions[idx],
        ));
        if eligible {
            match best {
                None => {
                    proof {
                        lemma_version_cmp_refl(vs[idx as int].version);
                    }
                    best = Some(idx);
                },
                Some(b) => {
                    let c = version_cmp(&versions[b].version, &versions[idx].version);
                    if c <= 0 {
                        proof {
                            lemma_version_cmp_refl(vs[idx as int].version);
                            assert forall|j: int|
                                0 <= j < idx + 1 && spec_eligible(vs[j], flag_allow_prerelease)
                                    implies spec_version_cmp(
                                    vs[j].version,
                                    vs[idx as int].version,
                                ) <= 0 by {
                                if j < idx {
                                    lemma_version_cmp_trans(
                                        vs[j].version,
                                        vs[b as int].version,
                                        vs[idx as int].version,
                                    );
                                }
                            }
                        }
                        best = Some(idx);
                    } else {
                        proof {
                            lemma_version_cmp_range(vs[b as int].version, vs[idx as int].version);
                            lemma_version_cmp_antisym(
                                vs[b as int].version,
                                vs[idx as int].version,
                            );
                        }
                    }
                },
            }
        }
    }
    match best {
        None => Err(FetchError::NoVersionsAvailable),
        Some(b) => {
            let rec = &versions[b];
            let version_text = render_version(&rec.version);
            let dep = Dependency::new(rec.name.as_slice()).set_version(
                version_text.as_slice(),
            ).set_available_features(copy_byte_vecs(&rec.available_features));
            proof {
                assert(spec_selected_at(vs, flag_allow_prerelease, b as int, dep));
            }
            Ok(dep)
        },
    }
}

/// Selection is deterministic: any two descriptors selected from the same
/// record set under the same prerelease flag come from the same record and
/// agree on every field the selection fixes. Re-selecting from an unchanged
/// record set therefore yields the same result.
pub proof fn lemma_selection_deterministic(
    vs: Seq<CrateVersion>,
    allow_prerelease: bool,
    i1: int,
    i2: int,
    d1: Dependency,
    d2: Dependency,
)
    requires
        spec_selected_at(vs, allow_prerelease, i1, d1),
        spec_selected_at(vs, allow_prerelease, i2, d2),
    ensures
        i1 == i2,
        d1.name@ == d2.name@,
        spec_version_source(d1) == spec_version_source(d2),
        spec_views(d1.available_features@) == spec_views(d2.available_features@),
{
    if i1 < i2 {
        lemma_version_cmp_antisym(vs[i2].version, vs[i1].version);
    } else if i2 < i1 {
        lemma_version_cmp_antisym(vs[i1].version, vs[i2].version);
    }
}

} // verus!
