//! Verified core of a package-registry publish pipeline.
//!
//! The library decodes the upload wire format, validates package metadata,
//! models the relational metadata store, the content blob store and the
//! append-only index log, and sequences a publish across the three stores
//! with atomic-looking semantics: every run either commits everywhere or
//! leaves all three stores as they were.

use vstd::prelude::*;

pub mod blob;
pub mod datetime;
pub mod email;
pub mod errors;
pub mod index;
pub mod json;
pub mod publish;
pub mod s3;
pub mod store;
pub mod text;
pub mod upload;
pub mod versions;
pub mod wire;

verus! {

/// Distinguishes the environment the registry runs in, so that callers can
/// pick different settings for production, development and testing.
#[derive(PartialEq, Eq, Structural, Clone, Copy, Debug)]
pub enum Env {
    Development,
    Test,
    Production,
}

/// Distinguishes a primary registry, which accepts writes, from a read-only
/// mirror of crate information held by another instance.
#[derive(PartialEq, Eq, Structural, Clone, Copy, Debug)]
pub enum Replica {
    Primary,
    ReadOnlyMirror,
}

} // verus!
