//! The error taxonomy shared by the object store, the catalog index and the
//! facade: every failure surfaces as one of these distinguishable kinds.

use vstd::prelude::*;

verus! {

/// A typed failure of a storage or index operation.
///
/// - `NotFound`: a path or hash was missing at read or delete time.
/// - `AlreadyExists`: a create targeted an occupied path.
/// - `InvalidArgument`: a misclassified or unsafe path was supplied.
/// - `IoFailure`: the filesystem, the database or the external classifier
///   failed; the payload carries the underlying report.
/// - `MalformedData`: a sidecar or an index row could not be decoded.
#[derive(Debug)]
pub enum VaultError {
    NotFound,
    AlreadyExists,
    InvalidArgument(String),
    IoFailure(String),
    MalformedData(String),
}

impl VaultError {
    /// True exactly on the `NotFound` variant.
    pub fn is_not_found(&self) -> (r: bool)
        ensures
            r == (self is NotFound),
    {
        match self {
            VaultError::NotFound => true,
            _ => false,
        }
    }

    /// True exactly on the `AlreadyExists` variant.
    pub fn is_already_exists(&self) -> (r: bool)
        ensures
            r == (self is AlreadyExists),
    {
        match self {
            VaultError::AlreadyExists => true,
            _ => false,
        }
    }
}

} // verus!
