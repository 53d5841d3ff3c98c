//! Resolution of user-supplied dependency specifiers against a registry
//! index: fuzzy crate-name matching, version selection with yank and
//! prerelease filtering, and extraction of package data from remote
//! manifests.

pub mod bytestr;
pub mod crate_name;
pub mod dependency;
pub mod reqs;
pub mod errors;
pub mod fetch;
pub mod fuzzy;
pub mod manifest;
pub mod select;
pub mod version;

use vstd::prelude::*;

verus! {

} // verus!
