//! The error taxonomy of the attribute pipeline. Per-field and per-event
//! problems are recovered locally and never surface here; only
//! configuration-level problems are hard errors.

use vstd::prelude::*;

verus! {

/// A fatal configuration error, detected before any data flows.
#[derive(Clone, Copy, PartialEq, Eq, Structural, Debug)]
pub enum Error {
    /// An attribute key prefix began or ended with the reserved `.`
    /// delimiter.
    InvalidAttrKeyPrefix,
}

impl Error {
    /// A human-readable description of the error.
    pub fn message(&self) -> (r: &'static str)
        ensures
            r@ == "Event attribute key prefix cannot start or end with the reserved delimeter '.' character"@,
    {
        "Event attribute key prefix cannot start or end with the reserved delimeter '.' character"
    }
}

} // verus!
