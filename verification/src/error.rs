//! Error taxonomy of the engine.
//!
//! Input errors are fatal to the current resolution and never retried.
//! Not-found errors are surfaced distinctly from generic storage faults so
//! that callers can map them to a "not found" outcome.  A missing package
//! document is reported as `MissingCrate`, carrying the identity of the
//! package whose materialization the caller must drive first.

use vstd::prelude::*;

verus! {

/// An error surfaced by the engine.
#[derive(Debug, Clone)]
pub enum ApiError {
    /// Malformed input: a bad reference string, an unknown scene file
    /// extension, a manifest without the required package fields.
    Input(String),
    /// A referenced entity does not exist: a missing sibling scene, a missing
    /// lockfile entry, a scene without an app, an object missing from the
    /// blob store after a completed unpack.
    NotFound(String),
    /// The package's documents are not materialized yet; the caller must
    /// materialize the named package and retry.
    MissingCrate(crate::crate_id::CrateId),
}

impl ApiError {
    /// True for the input-error class of the taxonomy.
    pub fn is_input(&self) -> (r: bool)
        ensures
            r == (self is Input),
    {
        match self {
            ApiError::Input(_) => true,
            _ => false,
        }
    }

    /// True for the not-found class of the taxonomy.
    pub fn is_not_found(&self) -> (r: bool)
        ensures
            r == (self is NotFound),
    {
        match self {
            ApiError::NotFound(_) => true,
            _ => false,
        }
    }

    /// The driver's decision after a failed materialization: a
    /// missing-crate outcome names the dependency package to materialize
    /// first before retrying; every other error ends the attempt.
    pub fn retry_dependency(&self) -> (r: Option<crate::crate_id::CrateId>)
        ensures
            match self {
                ApiError::MissingCrate(c) => r matches Some(d) && d@ == c@,
                _ => r is None,
            },
    {
        match self {
            ApiError::MissingCrate(c) => Some(c.clone()),
            _ => None,
        }
    }
}

} // verus!
