//! The resolved dependency descriptor: a name, at most one source, and the
//! requested and available feature sets.

use vstd::prelude::*;

use crate::bytestr::slice_to_vec_u8;

verus! {

/// Where a dependency comes from. A descriptor holds at most one of these,
/// so a version requirement and a git or path source never coexist.
#[derive(Debug, Clone, PartialEq, Eq)]
pub enum DependencySource {
    /// A registry version requirement (or an exact selected version).
    Version(Vec<u8>),
    /// A git URL and an optional revision.
    Git(Vec<u8>, Option<Vec<u8>>),
    /// A canonicalized filesystem path.
    Path(Vec<u8>),
}

/// A dependency as it would be written into a package manifest.
#[derive(Debug, Clone, PartialEq, Eq)]
pub struct Dependency {
    pub name: Vec<u8>,
    pub source: Option<DependencySource>,
    /// Features the user asked for, when any were given.
    pub features: Option<Vec<Vec<u8>>>,
    /// Features the resolved package declares.
    pub available_features: Vec<Vec<u8>>,
}

/// The version text of a descriptor whose source is a registry version.
pub open spec fn spec_version_source(d: Dependency) -> Option<Seq<u8>> {
    match d.source {
        Some(DependencySource::Version(v)) => Some(v@),
        _ => None,
    }
}

/// The views of a list of byte strings.
pub open spec fn spec_views(v: Seq<Vec<u8>>) -> Seq<Seq<u8>> {
    v.map_values(|x: Vec<u8>| x@)
}

impl Dependency {
    /// A bare descriptor: no source, no features.
    pub fn new(name: &[u8]) -> (r: Dependency)
        ensures
            r.name@ == name@,
            r.source is None,
            r.features is None,
            r.available_features@.len() == 0,
    {
        Dependency {
            name: slice_to_vec_u8(name),
            source: None,
            features: None,
            available_features: Vec::new(),
        }
    }

    /// Replace the source with an exact version or requirement text.
    pub fn set_version(self, version: &[u8]) -> (r: Dependency)
        ensures
            r.name == self.name,
            r.features == self.features,
            r.available_features == self.available_features,
            spec_version_source(r) == Some(version@),
    {
        Dependency { source: Some(DependencySource::Version(slice_to_vec_u8(version))), ..self }
    }

    /// Replace the source with a git URL and optional revision.
    pub fn set_git(self, url: &[u8], rev: Option<Vec<u8>>) -> (r: Dependency)
        ensures
            r.name == self.name,
            r.features == self.features,
            r.available_features == self.available_features,
            match r.source {
                Some(DependencySource::Git(u, rv)) => u@ == url@ && rv == rev,
                _ => false,
            },
    {
        Dependency { source: Some(DependencySource::Git(slice_to_vec_u8(url), rev)), ..self }
    }

    /// Replace the source with a filesystem path.
    pub fn set_path(self, path: &[u8]) -> (r: Dependency)
        ensures
            r.name == self.name,
            r.features == self.features,
            r.available_features == self.available_features,
            match r.source {
                Some(DependencySource::Path(p)) => p@ == path@,
                _ => false,
            },
    {
        Dependency { source: Some(DependencySource::Path(slice_to_vec_u8(path))), ..self }
    }

    /// Replace the requested feature list.
    pub fn set_features(self, features: Option<Vec<Vec<u8>>>) -> (r: Dependency)
        ensures
            r.name == self.name,
            r.source == self.source,
            r.available_features == self.available_features,
            r.features == features,
    {
        Dependency { features, ..self }
    }

    /// Replace the declared feature list.
    pub fn set_available_features(self, available_features: Vec<Vec<u8>>) -> (r: Dependency)
        ensures
            r.name == self.name,
            r.source == self.source,
            r.features == self.features,
            r.available_features == available_features,
    {
        Dependency { available_features, ..self }
    }

    /// The version text, when the source is a registry version.
    pub fn version(&self) -> (r: Option<&Vec<u8>>)
        ensures
            match r {
                Some(v) => spec_version_source(*self) == Some(v@),
                None => spec_version_source(*self) is None,
            },
    {
        match &self.source {
            Some(DependencySource::Version(v)) => Some(v),
            _ => None,
        }
    }
}

} // verus!
