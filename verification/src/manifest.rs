//! Remote-manifest location: classify a repository URL by host, extract
//! the `owner/repo` pair under a strict shape, and build the raw-content
//! URL of the manifest on the default `master` branch. The HTTP fetch
//! itself happens outside; only the URL work lives here.

use vstd::prelude::*;

use crate::bytestr::{find_byte, slice_to_vec_u8, spec_find_byte, spec_split, spec_starts_with, starts_with};
use crate::errors::FetchError;

verus! {

/// The GitHub host literal. (`https://github.com`)
pub open spec fn spec_github_host() -> Seq<u8> {
    seq![104u8, 116, 116, 112, 115, 58, 47, 47, 103, 105, 116, 104, 117, 98, 46, 99, 111, 109]
}

fn github_host() -> (r: [u8; 18])
    ensures
        r@ == spec_github_host(),
{
    let r: [u8; 18] = [104u8, 116, 116, 112, 115, 58, 47, 47, 103, 105, 116, 104, 117, 98, 46, 99, 111, 109];
    proof {
        assert(r@ =~= spec_github_host());
    }
    r
}

/// The GitLab host literal. (`https://gitlab.com`)
pub open spec fn spec_gitlab_host() -> Seq<u8> {
    seq![104u8, 116, 116, 112, 115, 58, 47, 47, 103, 105, 116, 108, 97, 98, 46, 99, 111, 109]
}

fn gitlab_host() -> (r: [u8; 18])
    ensures
        r@ == spec_gitlab_host(),
{
    let r: [u8; 18] = [104u8, 116, 116, 112, 115, 58, 47, 47, 103, 105, 116, 108, 97, 98, 46, 99, 111, 109];
    proof {
        assert(r@ =~= spec_gitlab_host());
    }
    r
}

/// The prefix a GitHub repository URL must carry. (`https://github.com/`)
pub open spec fn spec_github_repo_prefix() -> Seq<u8> {
    seq![104u8, 116, 116, 112, 115, 58, 47, 47, 103, 105, 116, 104, 117, 98, 46, 99, 111, 109, 47]
}

fn github_repo_prefix() -> (r: [u8; 19])
    ensures
        r@ == spec_github_repo_prefix(),
{
    let r: [u8; 19] = [104u8, 116, 116, 112, 115, 58, 47, 47, 103, 105, 116, 104, 117, 98, 46, 99, 111, 109, 47];
    proof {
        assert(r@ =~= spec_github_repo_prefix());
    }
    r
}

/// The prefix a GitLab repository URL must carry. (`https://gitlab.com/`)
pub open spec fn spec_gitlab_repo_prefix() -> Seq<u8> {
    seq![104u8, 116, 116, 112, 115, 58, 47, 47, 103, 105, 116, 108, 97, 98, 46, 99, 111, 109, 47]
}

fn gitlab_repo_prefix() -> (r: [u8; 19])
    ensures
        r@ == spec_gitlab_repo_prefix(),
{
    let r: [u8; 19] = [104u8, 116, 116, 112, 115, 58, 47, 47, 103, 105, 116, 108, 97, 98, 46, 99, 111, 109, 47];
    proof {
        assert(r@ =~= spec_gitlab_repo_prefix());
    }
    r
}

/// The optional `.git` tail of a repository URL. (`.git`)
pub open spec fn spec_git_suffix() -> Seq<u8> {
    seq![46u8, 103, 105, 116]
}

fn git_suffix() -> (r: [u8; 4])
    ensures
        r@ == spec_git_suffix(),
{
    let r: [u8; 4] = [46u8, 103, 105, 116];
    proof {
        assert(r@ =~= spec_git_suffix());
    }
    r
}

/// Where GitHub serves raw files from. (`https://raw.githubusercontent.com/`)
pub open spec fn spec_github_raw_base() -> Seq<u8> {
    seq![104u8, 116, 116, 112, 115, 58, 47, 47, 114, 97, 119, 46, 103, 105, 116, 104, 117, 98, 117, 115, 101, 114, 99, 111, 110, 116, 101, 110, 116, 46, 99, 111, 109, 47]
}

fn github_raw_base() -> (r: [u8; 34])
    ensures
        r@ == spec_github_raw_base(),
{
    let r: [u8; 34] = [104u8, 116, 116, 112, 115, 58, 47, 47, 114, 97, 119, 46, 103, 105, 116, 104, 117, 98, 117, 115, 101, 114, 99, 111, 110, 116, 101, 110, 116, 46, 99, 111, 109, 47];
    proof {
        assert(r@ =~= spec_github_raw_base());
    }
    r
}

/// The manifest path on the default branch, for GitHub. (`/master/Cargo.toml`)
pub open spec fn spec_github_raw_tail() -> Seq<u8> {
    seq![47u8, 109, 97, 115, 116, 101, 114, 47, 67, 97, 114, 103, 111, 46, 116, 111, 109, 108]
}

fn github_raw_tail() -> (r: [u8; 18])
    ensures
        r@ == spec_github_raw_tail(),
{
    let r: [u8; 18] = [47u8, 109, 97, 115, 116, 101, 114, 47, 67, 97, 114, 103, 111, 46, 116, 111, 109, 108];
    proof {
        assert(r@ =~= spec_github_raw_tail());
    }
    r
}

/// The manifest path on the default branch, for GitLab. (`/raw/master/Cargo.toml`)
pub open spec fn spec_gitlab_raw_tail() -> Seq<u8> {
    seq![47u8, 114, 97, 119, 47, 109, 97, 115, 116, 101, 114, 47, 67, 97, 114, 103, 111, 46, 116, 111, 109, 108]
}

fn gitlab_raw_tail() -> (r: [u8; 22])
    ensures
        r@ == spec_gitlab_raw_tail(),
{
    let r: [u8; 22] = [47u8, 114, 97, 119, 47, 109, 97, 115, 116, 101, 114, 47, 67, 97, 114, 103, 111, 46, 116, 111, 109, 108];
    proof {
        assert(r@ =~= spec_gitlab_raw_tail());
    }
    r
}

/// A recognized git host.
#[derive(Debug, Clone, Copy, PartialEq, Eq, Structural)]
pub enum RepoHost {
    Github,
    Gitlab,
}

/// A byte allowed in an owner or repository name: an ASCII letter, a
/// digit, `-` or `_`.
pub open spec fn spec_is_ident_byte(b: u8) -> bool {
    (48 <= b <= 57) || (65 <= b <= 90) || (97 <= b <= 122) || b == 45 || b == 95
}

/// Every byte of the text is allowed in an owner or repository name.
pub open spec fn spec_all_ident(s: Seq<u8>) -> bool {
    forall|i: int| 0 <= i < s.len() ==> spec_is_ident_byte(s[i])
}

/// The URL decomposes as `prefix` + `owner` + `/` + `repo` + an optional
/// `/` or `.git` tail, with both parts nonempty and made of name bytes.
pub open spec fn spec_repo_parts(u: Seq<u8>, prefix: Seq<u8>, owner: Seq<u8>, repo: Seq<u8>) -> bool {
    &&& owner.len() > 0
    &&& repo.len() > 0
    &&& spec_all_ident(owner)
    &&& spec_all_ident(repo)
    &&& {
        let stem = prefix + owner + seq![47u8] + repo;
        u == stem || u == stem + seq![47u8] || u == stem + spec_git_suffix()
    }
}

/// Whether a URL names the GitHub host.
pub fn is_github_url(url: &[u8]) -> (r: bool)
    ensures
        r == spec_starts_with(url@, spec_github_host()),
{
    let host = github_host();
    starts_with(url, host.as_slice())
}

/// Whether a URL names the GitLab host.
pub fn is_gitlab_url(url: &[u8]) -> (r: bool)
    ensures
        r == spec_starts_with(url@, spec_gitlab_host()),
{
    let host = gitlab_host();
    starts_with(url, host.as_slice())
}

/// First index of `s` at which the byte is not a name byte, or the length
/// when every byte is one.
fn find_non_ident(s: &[u8]) -> (r: usize)
    ensures
        r <= s@.len(),
        forall|j: int| 0 <= j < r ==> spec_is_ident_byte(s@[j]),
        r < s@.len() ==> !spec_is_ident_byte(s@[r as int]),
{
    let n = s.len();
    for i in 0..n
        invariant
            n == s@.len(),
            forall|j: int| 0 <= j < i ==> spec_is_ident_byte(s@[j]),
    {
        let b = s[i];
        if !((48 <= b && b <= 57) || (65 <= b && b <= 90) || (97 <= b && b <= 122) || b == 45
            || b == 95) {
            return i;
        }
    }
    n
}

/// Extract the `owner/repo` pair of a repository URL under the given
/// prefix: `Some` exactly when the URL has the strict shape, and then the
/// unique such pair.
pub fn parse_repo_url(url: &[u8], prefix: &[u8]) -> (r: Option<(Vec<u8>, Vec<u8>)>)
    ensures
        match r {
            Some(pair) => spec_repo_parts(url@, prefix@, pair.0@, pair.1@),
            None => forall|o: Seq<u8>, rp: Seq<u8>| !spec_repo_parts(url@, prefix@, o, rp),
        },
{
    if !starts_with(url, prefix) {
        proof {
            assert forall|o: Seq<u8>, rp: Seq<u8>| !spec_repo_parts(url@, prefix@, o, rp) by {
                if spec_repo_parts(url@, prefix@, o, rp) {
                    assert(url@.subrange(0, prefix@.len() as int) =~= prefix@);
                }
            }
        }
        return None;
    }
    let plen = prefix.len();
    let ulen = url.len();
    let rest = vstd::slice::slice_subrange(url, plen, ulen);
    let ghost restv = rest@;
    proof {
        assert(restv =~= url@.skip(plen as int));
    }
    // the owner ends at the first `/`; a name byte is never `/`
    let slash = match find_byte(rest, 47) {
        Some(i) => i,
        None => {
            proof {
                crate::bytestr::lemma_find_byte_props(restv, 47);
                assert forall|o: Seq<u8>, rp: Seq<u8>| !spec_repo_parts(url@, prefix@, o, rp) by {
                    if spec_repo_parts(url@, prefix@, o, rp) {
                        assert(url@[plen + o.len()] == 47);
                        assert(restv[o.len() as int] == 47);
                    }
                }
            }
            return None;
        },
    };
    proof {
        crate::bytestr::lemma_find_byte_props(restv, 47);
    }
    let owner = vstd::slice::slice_subrange(rest, 0, slash);
    let ghost ownerv = owner@;
    proof {
        assert(ownerv =~= restv.take(slash as int));
    }
    let owner_ok = {
        let k = find_non_ident(owner);
        k == owner.len() && slash > 0
    };
    if !owner_ok {
        proof {
            assert forall|o: Seq<u8>, rp: Seq<u8>| !spec_repo_parts(url@, prefix@, o, rp) by {
                if spec_repo_parts(url@, prefix@, o, rp) {
                    // the slash after the owner is the first slash of the rest
                    assert(restv[o.len() as int] == 47);
                    assert forall|j: int| 0 <= j < o.len() implies restv[j] != 47 by {
                        assert(restv[j] == o[j]);
                        assert(spec_is_ident_byte(o[j]));
                    }
                    assert(slash == o.len());
                    assert(ownerv =~= o);
                }
            }
        }
        return None;
    }
    let rlen = rest.len();
    let tail = vstd::slice::slice_subrange(rest, slash + 1, rlen);
    let ghost tailv = tail@;
    proof {
        assert(tailv =~= restv.skip(slash + 1));
    }
    // the repo is the longest run of name bytes; what follows must be
    // nothing, `/`, or `.git`
    let j = find_non_ident(tail);
    let repo = vstd::slice::slice_subrange(tail, 0, j);
    let suffix = vstd::slice::slice_subrange(tail, j, tail.len());
    let ghost repov = repo@;
    let ghost suffixv = suffix@;
    proof {
        assert(repov =~= tailv.take(j as int));
        assert(suffixv =~= tailv.skip(j as int));
    }
    let gs = git_suffix();
    let suffix_ok = suffix.len() == 0 || (suffix.len() == 1 && suffix[0] == 47)
        || crate::bytestr::bytes_eq(suffix, gs.as_slice());
    let repo_ok = j > 0;
    if repo_ok && suffix_ok {
        proof {
            assert(url@ =~= prefix@ + ownerv + seq![47u8] + repov + suffixv);
            if suffixv.len() == 1 {
                assert(suffixv =~= seq![47u8]);
            }
            assert(spec_repo_parts(url@, prefix@, ownerv, repov));
        }
        Some((slice_to_vec_u8(owner), slice_to_vec_u8(repo)))
    } else {
        proof {
            assert forall|o: Seq<u8>, rp: Seq<u8>| !spec_repo_parts(url@, prefix@, o, rp) by {
                if spec_repo_parts(url@, prefix@, o, rp) {
                    assert(restv[o.len() as int] == 47);
                    assert forall|jj: int| 0 <= jj < o.len() implies restv[jj] != 47 by {
                        assert(restv[jj] == o[jj]);
                        assert(spec_is_ident_byte(o[jj]));
                    }
                    assert(slash == o.len());
                    // the repo must be exactly the ident run of the tail
                    let sfx = tailv.skip(rp.len() as int);
                    assert(tailv =~= rp + sfx);
                    assert(sfx.len() == 0 || sfx =~= seq![47u8] || sfx =~= spec_git_suffix());
                    assert forall|jj: int| 0 <= jj < rp.len() implies spec_is_ident_byte(
                        tailv[jj],
                    ) by {
                        assert(tailv[jj] == rp[jj]);
                    }
                    if rp.len() < tailv.len() {
                        assert(tailv[rp.len() as int] == sfx[0]);
                        assert(!spec_is_ident_byte(sfx[0]));
                    }
                    assert(j == rp.len());
                    assert(repov =~= rp);
                    assert(suffixv =~= sfx);
                }
            }
        }
        None
    }
}

/// The raw-content URL of the manifest for an `owner/repo` pair on a host:
/// the default branch `master`, no branch discovery.
pub open spec fn spec_raw_manifest_url(host: RepoHost, owner: Seq<u8>, repo: Seq<u8>) -> Seq<u8> {
    match host {
        RepoHost::Github => spec_github_raw_base() + owner + seq![47u8] + repo
            + spec_github_raw_tail(),
        RepoHost::Gitlab => spec_gitlab_repo_prefix() + owner + seq![47u8] + repo
            + spec_gitlab_raw_tail(),
    }
}

/// Build the raw-content manifest URL for a host and repository pair.
pub fn raw_manifest_url(host: RepoHost, owner: &[u8], repo: &[u8]) -> (r: Vec<u8>)
    ensures
        r@ == spec_raw_manifest_url(host, owner@, repo@),
{
    let mut out: Vec<u8> = Vec::new();
    match host {
        RepoHost::Github => {
            let base = github_raw_base();
            out.extend_from_slice(base.as_slice());
            out.extend_from_slice(owner);
            out.push(47);
            out.extend_from_slice(repo);
            let tail = github_raw_tail();
            out.extend_from_slice(tail.as_slice());
        },
        RepoHost::Gitlab => {
            let base = gitlab_repo_prefix();
            out.extend_from_slice(base.as_slice());
            out.extend_from_slice(owner);
            out.push(47);
            out.extend_from_slice(repo);
            let tail = gitlab_raw_tail();
            out.extend_from_slice(tail.as_slice());
        },
    }
    proof {
        assert(out@ =~= spec_raw_manifest_url(host, owner@, repo@));
    }
    out
}

/// Locate the manifest behind a specifier that may be a repository URL:
/// `Ok(None)` when no recognized host is named — the specifier is then no
/// URL at all; `UnrecognizedRepositoryUrl` when a host is named but the
/// `owner/repo` shape is absent, and no fetch is attempted; otherwise the
/// host and the raw-content URL to fetch.
pub fn get_manifest_url(url: &[u8]) -> (r: Result<Option<(RepoHost, Vec<u8>)>, FetchError>)
    ensures
        match r {
            Ok(None) => !spec_starts_with(url@, spec_github_host()) && !spec_starts_with(
                url@,
                spec_gitlab_host(),
            ),
            Ok(Some(pair)) => {
                &&& exists|o: Seq<u8>, rp: Seq<u8>|
                    spec_repo_parts(
                        url@,
                        if pair.0 is Github {
                            spec_github_repo_prefix()
                        } else {
                            spec_gitlab_repo_prefix()
                        },
                        o,
                        rp,
                    ) && pair.1@ == spec_raw_manifest_url(pair.0, o, rp)
                &&& (pair.0 is Github ==> spec_starts_with(url@, spec_github_host()))
                &&& (pair.0 is Gitlab ==> spec_starts_with(url@, spec_gitlab_host()))
            },
            Err(e) => {
                &&& e == FetchError::UnrecognizedRepositoryUrl
                &&& (spec_starts_with(url@, spec_github_host()) || spec_starts_with(
                    url@,
                    spec_gitlab_host(),
                ))
                &&& (spec_starts_with(url@, spec_github_host()) ==> forall|o: Seq<u8>, rp: Seq<u8>|
                    !spec_repo_parts(url@, spec_github_repo_prefix(), o, rp))
                &&& (!spec_starts_with(url@, spec_github_host()) ==> forall|
                    o: Seq<u8>,
                    rp: Seq<u8>,
                |
                    !spec_repo_parts(url@, spec_gitlab_repo_prefix(), o, rp))
            },
        },
{
    if is_github_url(url) {
        let prefix = github_repo_prefix();
        match parse_repo_url(url, prefix.as_slice()) {
            Some((owner, repo)) => {
                let raw = raw_manifest_url(RepoHost::Github, owner.as_slice(), repo.as_slice());
                Ok(Some((RepoHost::Github, raw)))
            },
            None => Err(FetchError::UnrecognizedRepositoryUrl),
        }
    } else if is_gitlab_url(url) {
        let prefix = gitlab_repo_prefix();
        match parse_repo_url(url, prefix.as_slice()) {
            Some((owner, repo)) => {
                let raw = raw_manifest_url(RepoHost::Gitlab, owner.as_slice(), repo.as_slice());
                Ok(Some((RepoHost::Gitlab, raw)))
            },
            None => Err(FetchError::UnrecognizedRepositoryUrl),
        }
    } else {
        Ok(None)
    }
}

/// The section that names the package. (`package`)
pub open spec fn spec_package_word() -> Seq<u8> {
    seq![112u8, 97, 99, 107, 97, 103, 101]
}

fn package_word() -> (r: [u8; 7])
    ensures
        r@ == spec_package_word(),
{
    let r: [u8; 7] = [112u8, 97, 99, 107, 97, 103, 101];
    proof {
        assert(r@ =~= spec_package_word());
    }
    r
}

/// The section that declares the feature table. (`features`)
pub open spec fn spec_features_word() -> Seq<u8> {
    seq![102u8, 101, 97, 116, 117, 114, 101, 115]
}

fn features_word() -> (r: [u8; 8])
    ensures
        r@ == spec_features_word(),
{
    let r: [u8; 8] = [102u8, 101, 97, 116, 117, 114, 101, 115];
    proof {
        assert(r@ =~= spec_features_word());
    }
    r
}

/// The key that holds the package name. (`name`)
pub open spec fn spec_name_word() -> Seq<u8> {
    seq![110u8, 97, 109, 101]
}

fn name_word() -> (r: [u8; 4])
    ensures
        r@ == spec_name_word(),
{
    let r: [u8; 4] = [110u8, 97, 109, 101];
    proof {
        assert(r@ =~= spec_name_word());
    }
    r
}

/// What a fetched or locally read manifest yields: the package name and
/// the names of its declared features.
#[derive(Debug, Clone, PartialEq, Eq)]
pub struct RemoteManifest {
    pub package_name: Vec<u8>,
    pub features: Vec<Vec<u8>>,
}

/// A blank byte inside a manifest line: space, tab or carriage return.
pub open spec fn spec_is_blank(b: u8) -> bool {
    b == 32 || b == 9 || b == 13
}

/// The text with leading blanks removed.
pub open spec fn spec_trim_front(s: Seq<u8>) -> Seq<u8>
    decreases s.len(),
{
    if s.len() > 0 && spec_is_blank(s[0]) {
        spec_trim_front(s.skip(1))
    } else {
        s
    }
}

/// The text with trailing blanks removed.
pub open spec fn spec_trim_back(s: Seq<u8>) -> Seq<u8>
    decreases s.len(),
{
    if s.len() > 0 && spec_is_blank(s.last()) {
        spec_trim_back(s.drop_last())
    } else {
        s
    }
}

/// The text with blanks removed at both ends.
pub open spec fn spec_trim(s: Seq<u8>) -> Seq<u8> {
    spec_trim_back(spec_trim_front(s))
}

/// Trim blanks from both ends of a line.
fn trim(s: &[u8]) -> (r: &[u8])
    ensures
        r@ == spec_trim(s@),
{
    let mut lo: usize = 0;
    let mut hi: usize = s.len();
    proof {
        assert(s@.skip(0) =~= s@);
    }
    while lo < hi && (s[lo] == 32 || s[lo] == 9 || s[lo] == 13)
        invariant
            lo <= hi <= s@.len(),
            spec_trim_front(s@) == spec_trim_front(s@.subrange(lo as int, hi as int)),
            hi == s@.len(),
        decreases hi - lo,
    {
        proof {
            assert(s@.subrange(lo as int, hi as int).skip(1) =~= s@.subrange(
                lo as int + 1,
                hi as int,
            ));
        }
        lo = lo + 1;
    }
    proof {
        assert(spec_trim_front(s@) == s@.subrange(lo as int, hi as int));
    }
    while lo < hi && (s[hi - 1] == 32 || s[hi - 1] == 9 || s[hi - 1] == 13)
        invariant
            lo <= hi <= s@.len(),
            spec_trim(s@) == spec_trim_back(s@.subrange(lo as int, hi as int)),
        decreases hi,
    {
        proof {
            assert(s@.subrange(lo as int, hi as int).drop_last() =~= s@.subrange(
                lo as int,
                hi as int - 1,
            ));
        }
        hi = hi - 1;
    }
    let r = vstd::slice::slice_subrange(s, lo, hi);
    proof {
        assert(r@ =~= s@.subrange(lo as int, hi as int));
    }
    r
}

/// A line that says nothing: blank, or a comment.
pub open spec fn spec_is_noise(l: Seq<u8>) -> bool {
    spec_trim(l).len() == 0 || spec_trim(l)[0] == 35
}

/// A section header: the trimmed line is bracketed.
pub open spec fn spec_is_header(l: Seq<u8>) -> bool {
    let t = spec_trim(l);
    t.len() >= 2 && t[0] == 91 && t.last() == 93
}

/// The trimmed name inside a header's brackets.
pub open spec fn spec_header_name(l: Seq<u8>) -> Seq<u8> {
    let t = spec_trim(l);
    spec_trim(t.subrange(1, t.len() - 1))
}

/// The trimmed key before the first `=`, when one occurs.
pub open spec fn spec_key_of(l: Seq<u8>) -> Option<Seq<u8>> {
    match spec_find_byte(l, 61) {
        None => None,
        Some(i) => Some(spec_trim(l.take(i))),
    }
}

/// The text between quotes after the first `=`, when shaped so.
pub open spec fn spec_quoted_value(l: Seq<u8>) -> Option<Seq<u8>> {
    match spec_find_byte(l, 61) {
        None => None,
        Some(i) => {
            let v = spec_trim(l.skip(i + 1));
            if v.len() >= 2 && v[0] == 34 && v.last() == 34 {
                Some(v.subrange(1, v.len() - 1))
            } else {
                None
            }
        },
    }
}

/// Which section the scan stands in.
#[derive(Debug, Clone, Copy, PartialEq, Eq, Structural)]
pub enum Section {
    Outside,
    Package,
    Features,
    Other,
}

/// The section a header moves the scan into.
pub open spec fn spec_section_of(h: Seq<u8>) -> Section {
    if h == spec_package_word() {
        Section::Package
    } else if h == spec_features_word() {
        Section::Features
    } else {
        Section::Other
    }
}

/// Scan the remaining lines: a header switches section; inside `[package]`
/// the first quoted `name` value is the package name; inside `[features]`
/// every key is a feature name; everything else says nothing.
pub open spec fn spec_scan(
    lines: Seq<Seq<u8>>,
    i: int,
    section: Section,
    name: Option<Seq<u8>>,
    feats: Seq<Seq<u8>>,
) -> (Option<Seq<u8>>, Seq<Seq<u8>>)
    decreases lines.len() - i,
{
    if i < 0 || i >= lines.len() {
        (name, feats)
    } else {
        let l = lines[i];
        if spec_is_noise(l) {
            spec_scan(lines, i + 1, section, name, feats)
        } else if spec_is_header(l) {
            spec_scan(lines, i + 1, spec_section_of(spec_header_name(l)), name, feats)
        } else {
            match spec_key_of(l) {
                Some(k) => {
                    if section is Package && k == spec_name_word() && name is None
                        && spec_quoted_value(l) is Some {
                        spec_scan(
                            lines,
                            i + 1,
                            section,
                            Some(spec_quoted_value(l).unwrap()),
                            feats,
                        )
                    } else if section is Features {
                        spec_scan(lines, i + 1, section, name, feats.push(k))
                    } else {
                        spec_scan(lines, i + 1, section, name, feats)
                    }
                },
                None => spec_scan(lines, i + 1, section, name, feats),
            }
        }
    }
}

/// What a manifest text yields: the lines are split on newlines and
/// scanned from the start, outside any section, with nothing collected.
pub open spec fn spec_manifest_scan(body: Seq<u8>) -> (Option<Seq<u8>>, Seq<Seq<u8>>) {
    spec_scan(spec_split(body, 10), 0, Section::Outside, None, Seq::empty())
}

/// Parse a manifest body: the package name under `[package]` and the keys
/// of `[features]`. A body that declares no package name is refused with
/// `ManifestParseFailure`.
pub fn parse_manifest(body: &[u8]) -> (r: Result<RemoteManifest, FetchError>)
    ensures
        ({
            let (nm, fs) = spec_manifest_scan(body@);
            match r {
                Ok(m) => nm == Some(m.package_name@) && m.features@.map_values(|x: Vec<u8>| x@)
                    == fs,
                Err(e) => e == FetchError::ManifestParseFailure && nm is None,
            }
        }),
{
    let lines = crate::bytestr::split_on_byte(body, 10);
    let ghost linesv = lines@.map_values(|x: Vec<u8>| x@);
    let n = lines.len();
    let mut section = Section::Outside;
    let mut name: Option<Vec<u8>> = None;
    let mut feats: Vec<Vec<u8>> = Vec::new();
    let pw = package_word();
    let fw = features_word();
    let nw = name_word();
    proof {
        assert(feats@.map_values(|x: Vec<u8>| x@) =~= Seq::<Seq<u8>>::empty());
    }
    for i in 0..n
        invariant
            n == linesv.len(),
            lines@.map_values(|x: Vec<u8>| x@) == linesv,
            pw@ == spec_package_word(),
            fw@ == spec_features_word(),
            nw@ == spec_name_word(),
            spec_manifest_scan(body@) == spec_scan(
                linesv,
                i as int,
                section,
                match name {
                    Some(v) => Some(v@),
                    None => None,
                },
                feats@.map_values(|x: Vec<u8>| x@),
            ),
    {
        let line = lines[i].as_slice();
        assert(line@ == linesv[i as int]);
        let ghost sec0 = section;
        let ghost nm0: Option<Seq<u8>> = match &name {
            Some(v) => Some(v@),
            None => None,
        };
        let ghost fs0 = feats@.map_values(|x: Vec<u8>| x@);
        let t = trim(line);
        let tlen = t.len();
        if tlen == 0 || t[0] == 35 {
            // blank or comment
        } else if tlen >= 2 && t[0] == 91 && t[tlen - 1] == 93 {
            let inner = trim(vstd::slice::slice_subrange(t, 1, tlen - 1));
            proof {
                assert(t@.subrange(1, tlen - 1) =~= spec_trim(line@).subrange(
                    1,
                    spec_trim(line@).len() - 1,
                ));
            }
            if crate::bytestr::bytes_eq(inner, pw.as_slice()) {
                section = Section::Package;
            } else if crate::bytestr::bytes_eq(inner, fw.as_slice()) {
                section = Section::Features;
            } else {
                section = Section::Other;
            }
        } else {
            match find_byte(line, 61) {
                Some(eq_pos) => {
                    proof {
                        crate::bytestr::lemma_find_byte_props(line@, 61);
                    }
                    let key = trim(vstd::slice::slice_subrange(line, 0, eq_pos));
                    proof {
                        assert(line@.subrange(0, eq_pos as int) =~= line@.take(eq_pos as int));
                    }
                    let is_package = match section {
                        Section::Package => true,
                        _ => false,
                    };
                    let is_features = match section {
                        Section::Features => true,
                        _ => false,
                    };
                    if is_package && name.is_none() && crate::bytestr::bytes_eq(
                        key,
                        nw.as_slice(),
                    ) {
                        let llen = line.len();
                        let v = trim(vstd::slice::slice_subrange(line, eq_pos + 1, llen));
                        proof {
                            assert(line@.subrange(eq_pos + 1, llen as int) =~= line@.skip(
                                eq_pos + 1,
                            ));
                        }
                        let vlen = v.len();
                        if vlen >= 2 && v[0] == 34 && v[vlen - 1] == 34 {
                            let inner = vstd::slice::slice_subrange(v, 1, vlen - 1);
                            proof {
                                assert(inner@ =~= spec_quoted_value(line@).unwrap());
                            }
                            name = Some(slice_to_vec_u8(inner));
                        }
                    } else if is_features {
                        feats.push(slice_to_vec_u8(key));
                        proof {
                            assert(feats@.map_values(|x: Vec<u8>| x@) =~= fs0.push(key@));
                        }
                    }
                },
                None => {},
            }
        }
        proof {
            assert(spec_scan(linesv, i as int, sec0, nm0, fs0) == spec_scan(
                linesv,
                i as int + 1,
                section,
                match name {
                    Some(v) => Some(v@),
                    None => None,
                },
                feats@.map_values(|x: Vec<u8>| x@),
            ));
        }
    }
    proof {
        assert(spec_scan(
            linesv,
            n as int,
            section,
            match name {
                Some(v) => Some(v@),
                None => None,
            },
            feats@.map_values(|x: Vec<u8>| x@),
        ) == (
            match name {
                Some(v) => Some(v@),
                None => None::<Seq<u8>>,
            },
            feats@.map_values(|x: Vec<u8>| x@),
        ));
    }
    match name {
        Some(package_name) => Ok(RemoteManifest { package_name, features: feats }),
        None => Err(FetchError::ManifestParseFailure),
    }
}

} // verus!
