//! Version-requirement checks, performed by the semver crate behind
//! trusted wrappers.

use vstd::prelude::*;

verus! {

/// Whether the text parses as a semantic-version requirement under the
/// caret/tilde/wildcard/comparator grammar; names what
/// `semver::VersionReq::parse` accepts.
pub uninterp spec fn spec_valid_req(s: Seq<u8>) -> bool;

/// Whether a requirement accepts a version: `None` when either text is
/// rejected by its parser, otherwise the match verdict; names what
/// `semver::VersionReq::matches` decides on the two texts.
pub uninterp spec fn spec_req_match(req: Seq<u8>, ver: Seq<u8>) -> Option<bool>;

/// Relies on semver::VersionReq::parse: whether the requirement grammar
/// accepts the text, a function of the text alone.
#[verifier::external_body]
pub fn version_req_is_valid(req: &[u8]) -> (r: bool)
    ensures
        r == spec_valid_req(req@),
{
    match core::str::from_utf8(req) {
        Ok(text) => semver::VersionReq::parse(text).is_ok(),
        Err(_) => false,
    }
}

/// Relies on semver::VersionReq::parse, semver::Version::parse and
/// semver::VersionReq::matches: `None` exactly when a text is rejected —
/// in particular whenever the requirement is invalid — else the verdict;
/// a function of the two texts alone.
#[verifier::external_body]
pub fn req_matches(req: &[u8], ver: &[u8]) -> (r: Option<bool>)
    ensures
        r == spec_req_match(req@, ver@),
        !spec_valid_req(req@) ==> r is None,
{
    let req_text = core::str::from_utf8(req).ok()?;
    let ver_text = core::str::from_utf8(ver).ok()?;
    let parsed_req = semver::VersionReq::parse(req_text).ok()?;
    let parsed_ver = semver::Version::parse(ver_text).ok()?;
    Some(parsed_req.matches(&parsed_ver))
}

} // verus!
