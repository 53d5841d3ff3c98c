//! Error taxonomy of the resolver.
//!
//! Each variant carries the offending name, requirement text, path or URL,
//! so a caller can render an actionable message.

use vstd::prelude::*;

verus! {

/// Why a resolution attempt failed.
///
/// Carried text is kept as the raw bytes of the offending input.
#[derive(Debug, Clone, PartialEq, Eq)]
pub enum FetchError {
    /// The crate name given was empty.
    EmptyCrateName,
    /// The text after `@` did not parse as a version requirement.
    InvalidVersionRequirement(Vec<u8>),
    /// No fuzzy variant of the name matched a crate in the registry.
    NoCrate(Vec<u8>),
    /// Every record was filtered out (yanked, or prerelease not allowed).
    NoVersionsAvailable,
    /// A version requirement could not be parsed while looking up features;
    /// carries the requirement text and the crate name.
    ParseVersion(Vec<u8>, Vec<u8>),
    /// A fetched manifest body could not be parsed.
    ManifestParseFailure,
    /// A local manifest could not be opened; carries the path.
    ManifestIoFailure(Vec<u8>),
    /// An HTTP fetch failed; carries the URL and a description of the cause.
    RemoteFetchFailure(Vec<u8>, Vec<u8>),
    /// A URL on a recognized host did not have the `owner/repo` shape.
    UnrecognizedRepositoryUrl,
}

} // verus!
