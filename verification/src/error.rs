//! The error taxonomy of the store layer.

use vstd::prelude::*;

verus! {

/// Outcome of a store operation that did not succeed.
///
/// `AlreadyExists` reports a uniqueness violation on an explicit create,
/// `NotFound` a lookup or delete that touched zero rows, and `UnknownStore`
/// any other store-layer failure (the only one the in-memory store can
/// produce is exhaustion of the identifier space).
#[derive(Clone, Copy, Debug, PartialEq, Eq, Structural)]
pub enum Error {
    AlreadyExists,
    NotFound,
    UnknownStore,
}

impl Error {
    /// A short human-readable label for the error, one per variant.
    pub fn message(&self) -> (s: &'static str)
        ensures
            *self == Error::AlreadyExists ==> s@ == "AlreadyExists"@,
            *self == Error::NotFound ==> s@ == "NotFound"@,
            *self == Error::UnknownStore ==> s@ == "UnknownStore"@,
    {
        match self {
            Error::AlreadyExists => "AlreadyExists",
            Error::NotFound => "NotFound",
            Error::UnknownStore => "UnknownStore",
        }
    }
}

} // verus!
