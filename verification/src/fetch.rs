//! Resolution against the registry index: the latest-version query, the
//! fuzzy name probe, the feature lookup, and the retry decisions around an
//! index update. The index itself lives outside; callers run the probing
//! and updating loops and hand every record back in as plain values.

use vstd::prelude::*;

use crate::bytestr::{copy_byte_vecs, slice_to_vec_u8};
use crate::dependency::{spec_views, Dependency};
use crate::errors::FetchError;
use crate::fuzzy::{gen_fuzzy_crate_names, spec_all_variants};
use crate::reqs::{req_matches, spec_req_match, spec_valid_req, version_req_is_valid};
use crate::select::{read_latest_version, spec_eligible, spec_selected_at, CrateVersion};
use crate::version::{
    lemma_version_cmp_antisym, lemma_version_cmp_range, lemma_version_cmp_refl,
    lemma_version_cmp_trans, render_version, spec_render_version, spec_version_cmp, version_cmp,
};

verus! {

/// What one attempt to update the registry index reported: done, blocked
/// by another process holding the index lock, or failed with a description.
#[derive(Debug, Clone, PartialEq, Eq)]
pub enum IndexUpdateEvent {
    Success,
    Locked,
    Failed(Vec<u8>),
}

/// What the update loop does next: stop, sleep one backoff interval and
/// attempt again, or give up carrying the failure text.
#[derive(Debug, Clone, PartialEq, Eq)]
pub enum RetryDecision {
    Success,
    Retrying,
    Fatal(Vec<u8>),
}

/// One step of the index-update retry machine: only lock contention is
/// retried; any other failure is fatal at once.
pub fn update_retry_step(event: IndexUpdateEvent) -> (r: RetryDecision)
    ensures
        match event {
            IndexUpdateEvent::Success => r == RetryDecision::Success,
            IndexUpdateEvent::Locked => r == RetryDecision::Retrying,
            IndexUpdateEvent::Failed(m) => r matches RetryDecision::Fatal(c) && c == m,
        },
{
    match event {
        IndexUpdateEvent::Success => RetryDecision::Success,
        IndexUpdateEvent::Locked => RetryDecision::Retrying,
        IndexUpdateEvent::Failed(m) => RetryDecision::Fatal(m),
    }
}

/// Whether an update attempt must be retried.
pub fn need_retry(event: &IndexUpdateEvent) -> (r: bool)
    ensures
        r == (*event is Locked),
{
    match event {
        IndexUpdateEvent::Locked => true,
        _ => false,
    }
}

/// Milliseconds to sleep between attempts while the index is locked.
pub fn registry_backoff_ms() -> (r: u64)
    ensures
        r == 1000,
{
    1000
}

/// Seconds allowed for one HTTP manifest fetch.
pub fn get_default_timeout() -> (r: u64)
    ensures
        r == 10,
{
    10
}

/// A fuzzy registry probe: the name variants in probe order — the exact
/// name first — and how far the probe has come.
pub struct FuzzyProbe {
    names: Vec<Vec<u8>>,
    next: usize,
    original: Vec<u8>,
}

impl FuzzyProbe {
    /// The variants still to be probed, in order.
    pub closed spec fn spec_remaining(&self) -> Seq<Seq<u8>> {
        if self.next <= self.names@.len() {
            self.names@.map_values(|x: Vec<u8>| x@).skip(self.next as int)
        } else {
            Seq::empty()
        }
    }

    /// The name the probe was built for.
    pub closed spec fn spec_original(&self) -> Seq<u8> {
        self.original@
    }

    /// Start a probe over every fuzzy variant of a name.
    pub fn new(crate_name: &[u8]) -> (r: FuzzyProbe)
        ensures
            r.spec_original() == crate_name@,
            r.spec_remaining().len() == spec_all_variants(crate_name@).len(),
            r.spec_remaining()[0] == crate_name@,
    {
        let names = gen_fuzzy_crate_names(crate_name);
        let r = FuzzyProbe { names, next: 0, original: slice_to_vec_u8(crate_name) };
        proof {
            assert(r.names@.map_values(|x: Vec<u8>| x@).skip(0) =~= r.names@.map_values(
                |x: Vec<u8>| x@,
            ));
        }
        r
    }

    /// The next variant to try, or nothing once all are exhausted.
    pub fn next_name(&mut self) -> (r: Option<Vec<u8>>)
        ensures
            final(self).spec_original() == old(self).spec_original(),
            match r {
                Some(name) => {
                    &&& old(self).spec_remaining().len() > 0
                    &&& name@ == old(self).spec_remaining()[0]
                    &&& final(self).spec_remaining() == old(self).spec_remaining().skip(1)
                },
                None => {
                    &&& old(self).spec_remaining().len() == 0
                    &&& final(self).spec_remaining() == old(self).spec_remaining()
                },
            },
{
        if self.next < self.names.len() {
            let name = slice_to_vec_u8(self.names[self.next].as_slice());
            self.next = self.next + 1;
            proof {
                let m = self.names@.map_values(|x: Vec<u8>| x@);
                assert(m.skip(self.next - 1)[0] == m[self.next - 1]);
                assert(name@ == m[self.next - 1]);
                assert(m.skip(self.next as int) =~= m.skip(self.next - 1).skip(1));
            }
            Some(name)
        } else {
            None
        }
    }

    /// The error once every variant missed: no crate under the original
    /// name or any fuzzy spelling of it.
    pub fn no_crate_error(&self) -> (r: FetchError)
        ensures
            r matches FetchError::NoCrate(n) && n@ == self.spec_original(),
    {
        FetchError::NoCrate(slice_to_vec_u8(self.original.as_slice()))
    }
}

/// Resolve the latest version of a crate from the records the registry
/// returned for it: an empty name is refused outright; otherwise the
/// selection filters and picks as `read_latest_version` does, and the flag
/// beside the descriptor reports whether the registry's canonical name
/// differs from the requested one — a warning for the caller, not an error.
pub fn resolve_latest(
    crate_name: &[u8],
    records: &Vec<CrateVersion>,
    allow_prerelease: bool,
) -> (r: Result<(Dependency, bool), FetchError>)
    ensures
        match r {
            Err(e) => {
                ||| (crate_name@.len() == 0 && e == FetchError::EmptyCrateName)
                ||| (crate_name@.len() > 0 && e == FetchError::NoVersionsAvailable && forall|
                    i: int,
                |
                    0 <= i < records@.len() ==> !spec_eligible(records@[i], allow_prerelease))
            },
            Ok((dep, renamed)) => {
                &&& crate_name@.len() > 0
                &&& exists|i: int| spec_selected_at(records@, allow_prerelease, i, dep)
                &&& renamed == (dep.name@ != crate_name@)
            },
        },
{
    if crate_name.len() == 0 {
        return Err(FetchError::EmptyCrateName);
    }
    let dep = match read_latest_version(records, allow_prerelease) {
        Ok(dep) => dep,
        Err(e) => {
            return Err(e);
        },
    };
    let renamed = !crate::bytestr::bytes_eq(dep.name.as_slice(), crate_name);
    Ok((dep, renamed))
}

/// The record index of highest precedence, ties resolved to the last.
pub open spec fn spec_highest_at(vs: Seq<CrateVersion>, i: int) -> bool {
    &&& 0 <= i < vs.len()
    &&& forall|j: int|
        0 <= j < vs.len() ==> spec_version_cmp(vs[j].version, vs[i].version) <= 0
    &&& forall|j: int| i < j < vs.len() ==> spec_version_cmp(vs[j].version, vs[i].version) == -1
}

/// The declared features of the version a requirement selects: scanning
/// the records from the last back, the first whose rendered version the
/// requirement accepts; when none is accepted, the features of the record
/// of highest precedence. An unparseable requirement is refused with
/// `ParseVersion`, an empty record list with `NoCrate`.
pub fn get_features_from_registry(
    crate_name: &[u8],
    version_req: &[u8],
    records: &Vec<CrateVersion>,
) -> (r: Result<Vec<Vec<u8>>, FetchError>)
    ensures
        match r {
            Err(e) => {
                ||| (!spec_valid_req(version_req@) && (e matches FetchError::ParseVersion(v, n)
                    && v@ == version_req@ && n@ == crate_name@))
                ||| (spec_valid_req(version_req@) && records@.len() == 0 && (e matches
                    FetchError::NoCrate(n) && n@ == crate_name@))
            },
            Ok(feats) => {
                &&& spec_valid_req(version_req@)
                &&& records@.len() > 0
                &&& ({
                    ||| exists|i: int|
                        {
                            &&& 0 <= i < records@.len()
                            &&& #[trigger] spec_req_match(
                                version_req@,
                                spec_render_version(records@[i].version),
                            ) == Some(true)
                            &&& forall|j: int|
                                i < j < records@.len() ==> #[trigger] spec_req_match(
                                    version_req@,
                                    spec_render_version(records@[j].version),
                                ) != Some(true)
                            &&& spec_views(feats@) == spec_views(
                                records@[i].available_features@,
                            )
                        }
                    ||| ({
                        &&& forall|j: int|
                            0 <= j < records@.len() ==> #[trigger] spec_req_match(
                                version_req@,
                                spec_render_version(records@[j].version),
                            ) != Some(true)
                        &&& exists|i: int|
                            #[trigger] spec_highest_at(records@, i) && spec_views(feats@)
                                == spec_views(records@[i].available_features@)
                    })
                })
            },
        },
{
    if !version_req_is_valid(version_req) {
        return Err(
            FetchError::ParseVersion(slice_to_vec_u8(version_req), slice_to_vec_u8(crate_name)),
        );
    }
    if records.len() == 0 {
        return Err(FetchError::NoCrate(slice_to_vec_u8(crate_name)));
    }
    let ghost vs = records@;
    let n = records.len();
    let mut i = n;
    while i > 0
        invariant
            n == vs.len(),
            records@ == vs,
            i <= n,
            spec_valid_req(version_req@),
            forall|j: int|
                i <= j < vs.len() ==> #[trigger] spec_req_match(
                    version_req@,
                    spec_render_version(vs[j].version),
                ) != Some(true),
        decreases i,
    {
        i = i - 1;
        let text = render_version(&records[i].version);
        match req_matches(version_req, text.as_slice()) {
            Some(true) => {
                return Ok(copy_byte_vecs(&records[i].available_features));
            },
            _ => {},
        }
    }
    // nothing matched: fall back to the record of highest precedence
    let mut best: usize = 0;
    proof {
        lemma_version_cmp_refl(vs[0].version);
    }
    let mut idx: usize = 1;
    while idx < n
        invariant
            n == vs.len() > 0,
            records@ == vs,
            best < idx <= n,
            forall|j: int|
                0 <= j < idx ==> spec_version_cmp(vs[j].version, vs[best as int].version) <= 0,
            forall|j: int|
                best < j < idx ==> spec_version_cmp(vs[j].version, vs[best as int].version)
                    == -1,
        decreases n - idx,
    {
        let c = version_cmp(&records[best].version, &records[idx].version);
        if c <= 0 {
            proof {
                lemma_version_cmp_refl(vs[idx as int].version);
                assert forall|j: int|
                    0 <= j < idx + 1 implies spec_version_cmp(
                    vs[j].version,
                    vs[idx as int].version,
                ) <= 0 by {
                    if j < idx {
                        lemma_version_cmp_trans(
                            vs[j].version,
                            vs[best as int].version,
                            vs[idx as int].version,
                        );
                    }
                }
            }
            best = idx;
        } else {
            proof {
                lemma_version_cmp_range(vs[best as int].version, vs[idx as int].version);
                lemma_version_cmp_antisym(vs[best as int].version, vs[idx as int].version);
            }
        }
        idx = idx + 1;
    }
    proof {
        assert(spec_highest_at(vs, best as int));
    }
    Ok(copy_byte_vecs(&records[best].available_features))
}

} // verus!
