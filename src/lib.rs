//! Discovers new upstream versions of tracked dependencies, decides which of
//! them still need work, and drives each one through fetch, validation and
//! publication into an internal registry.
use vstd::prelude::*;

pub mod db;
pub mod github;
pub mod manager;
pub mod npm;
pub mod sync;
pub mod text;
pub mod utils;

verus! {

/// One version reported by an upstream source: its raw label and where its
/// artifact can be retrieved (empty for registry packages, which are resolved
/// by name and version).
#[derive(Debug, Clone)]
pub struct VersionStruct {
    pub name: String,
    pub url: String,
}

} // verus!
