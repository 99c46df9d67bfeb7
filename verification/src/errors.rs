//! The failure taxonomy of the store, as typed results: nothing is
//! swallowed, every failing operation reports which of these it hit.

use vstd::prelude::*;

verus! {

/// Why a commit failed.
#[derive(Clone, Copy, Debug, PartialEq, Eq, Structural)]
pub enum CommitError {
    /// The session is not in the registry: it never existed, or was already
    /// terminated by a commit or a cancel.
    UnknownUpload,
    /// The claimed digest differs from the digest of the staged content;
    /// the upload is discarded, not published.
    DigestMismatch,
    /// The staged content could not be read back; the session is lost.
    StorageIoError,
}

/// Why a cancel failed.
#[derive(Clone, Copy, Debug, PartialEq, Eq, Structural)]
pub enum CancelError {
    /// The session is not in the registry.
    UnknownUpload,
}

impl CommitError {
    /// A short diagnostic name for the failure.
    pub fn describe(&self) -> (r: &'static str)
        ensures
            r@ == match self {
                CommitError::UnknownUpload => "unknown upload"@,
                CommitError::DigestMismatch => "digest mismatch"@,
                CommitError::StorageIoError => "storage i/o error"@,
            },
    {
        match self {
            CommitError::UnknownUpload => "unknown upload",
            CommitError::DigestMismatch => "digest mismatch",
            CommitError::StorageIoError => "storage i/o error",
        }
    }
}

} // verus!
