//! Crate-specifier parsing: a plain name, a name with a version
//! requirement (`docopt@^0.8`), a name with a feature list
//! (`serde+derive`), a URL, or a path.

use vstd::prelude::*;

use crate::bytestr::{contains_byte, find_byte, spec_find_byte, spec_split, split_on_byte};
use crate::dependency::{spec_version_source, Dependency};
use crate::errors::FetchError;
use crate::reqs::{spec_valid_req, version_req_is_valid};

verus! {

/// A crate specifier held as raw bytes.
#[derive(Debug)]
pub struct CrateName<'a>(&'a [u8]);

/// The specifier split once at the first `@`: the part before it and, when
/// an `@` occurs, the requirement text after it.
pub open spec fn spec_at_split(s: Seq<u8>) -> (Seq<u8>, Option<Seq<u8>>) {
    match spec_find_byte(s, 64) {
        None => (s, None),
        Some(i) => (s.take(i), Some(s.skip(i + 1))),
    }
}

/// The part left of any requirement split once at the first `+`: the name
/// and, when a `+` occurs, the feature-list text after it.
pub open spec fn spec_plus_split(s: Seq<u8>) -> (Seq<u8>, Option<Seq<u8>>) {
    match spec_find_byte(s, 43) {
        None => (s, None),
        Some(i) => (s.take(i), Some(s.skip(i + 1))),
    }
}

impl<'a> CrateName<'a> {
    /// Create a new `CrateName`.
    pub fn new(name: &'a [u8]) -> (r: Self)
        ensures
            r@ == name@,
    {
        CrateName(name)
    }

    /// The raw specifier text.
    pub fn name(&self) -> (r: &[u8])
        ensures
            r@ == self@,
    {
        self.0
    }

    /// Does the specifier carry a version requirement?
    pub fn has_version(&self) -> (r: bool)
        ensures
            r == self@.contains(64),
    {
        contains_byte(self.0, 64)
    }

    /// Is the specifier shaped like a path: does it contain `.`, `/` or a
    /// backslash? Deliberately permissive; a crate name holding a dot is
    /// misread as a path.
    pub fn is_path(&self) -> (r: bool)
        ensures
            r == (self@.contains(46) || self@.contains(47) || self@.contains(92)),
    {
        contains_byte(self.0, 46) || contains_byte(self.0, 47) || contains_byte(self.0, 92)
    }

    /// Split a `name['+' features]['@' versionreq]` specifier. Whenever an
    /// `@` occurs, the text after the first one must parse as a version
    /// requirement, else `InvalidVersionRequirement` carrying that text;
    /// the text after the first `+` of what is left is a comma-separated
    /// feature list. With neither part present there is nothing to report
    /// and the name resolves later against the registry.
    pub fn parse_version_or_features(&self) -> (r: Result<Option<Dependency>, FetchError>)
        ensures
            ({
                let (head, ver) = spec_at_split(self@);
                let (name, feats) = spec_plus_split(head);
                match r {
                    Err(e) => {
                        &&& ver is Some
                        &&& !spec_valid_req(ver.unwrap())
                        &&& e matches FetchError::InvalidVersionRequirement(t) && t@
                            == ver.unwrap()
                    },
                    Ok(None) => feats is None && ver is None,
                    Ok(Some(dep)) => {
                        &&& (feats is Some || ver is Some)
                        &&& ver is Some ==> spec_valid_req(ver.unwrap())
                        &&& dep.name@ == name
                        &&& match feats {
                            Some(f) => dep.features matches Some(fs)
                                && fs@.map_values(|x: Vec<u8>| x@) == spec_split(f, 44),
                            None => dep.features is None,
                        }
                        &&& match ver {
                            Some(v) => spec_version_source(dep) == Some(v),
                            None => dep.source is None,
                        }
                        &&& dep.available_features@.len() == 0
                    },
                }
            }),
    {
        let (head, ver): (&[u8], Option<&[u8]>) = match find_byte(self.0, 64) {
            None => (self.0, None),
            Some(i) => {
                proof {
                    crate::bytestr::lemma_find_byte_props(self@, 64);
                }
                let l = self.0.len();
                (
                    vstd::slice::slice_subrange(self.0, 0, i),
                    Some(vstd::slice::slice_subrange(self.0, i + 1, l)),
                )
            },
        };
        proof {
            let (h, v) = spec_at_split(self@);
            assert(head@ =~= h);
            match ver {
                Some(vs) => assert(vs@ =~= v.unwrap()),
                None => (),
            }
        }
        let (name, feats): (&[u8], Option<&[u8]>) = match find_byte(head, 43) {
            None => (head, None),
            Some(i) => {
                proof {
                    crate::bytestr::lemma_find_byte_props(head@, 43);
                }
                let l = head.len();
                (
                    vstd::slice::slice_subrange(head, 0, i),
                    Some(vstd::slice::slice_subrange(head, i + 1, l)),
                )
            },
        };
        proof {
            let (n, f) = spec_plus_split(head@);
            assert(name@ =~= n);
            match feats {
                Some(fs) => assert(fs@ =~= f.unwrap()),
                None => (),
            }
        }
        if let Some(version_text) = ver {
            if !version_req_is_valid(version_text) {
                return Err(
                    FetchError::InvalidVersionRequirement(
                        crate::bytestr::slice_to_vec_u8(version_text),
                    ),
                );
            }
        }
        if feats.is_none() && ver.is_none() {
            return Ok(None);
        }
        let mut dep = Dependency::new(name);
        if let Some(feature_text) = feats {
            dep = dep.set_features(Some(split_on_byte(feature_text, 44)));
        }
        if let Some(version_text) = ver {
            dep = dep.set_version(version_text);
        }
        Ok(Some(dep))
    }
}

impl<'a> View for CrateName<'a> {
    type V = Seq<u8>;

    closed spec fn view(&self) -> Seq<u8> {
        self.0@
    }
}

} // verus!
