//! The typed outcome of the upload-termination endpoints, and how the
//! pipeline's results map onto it. Rendering these as wire responses is
//! the routing layer's business.

use vstd::prelude::*;

use crate::errors::{CancelError, CommitError};

verus! {

/// What a finished upload request answers with.
#[derive(Debug, Clone)]
pub enum UuidAcceptResponse {
    /// The claimed digest did not match the staged content.
    DigestMismatch,
    /// The upload was accepted and published.
    UuidAccept { uuid: String, digest: String, name: String, repo: String },
    /// The upload was deleted.
    UuidDelete,
    /// Anything else that kept the request from finishing.
    UnknownError,
}

impl UuidAcceptResponse {
    /// The decision core of the monolithic-upload handler: how a commit's
    /// outcome answers the request.
    pub fn from_commit(
        outcome: &Result<u64, CommitError>,
        uuid: String,
        digest: String,
        name: String,
        repo: String,
    ) -> (r: UuidAcceptResponse)
        ensures
            outcome is Ok ==> (r matches UuidAcceptResponse::UuidAccept {
                uuid: u,
                digest: d,
                name: n,
                repo: p,
            } && u@ == uuid@ && d@ == digest@ && n@ == name@ && p@ == repo@),
            *outcome == Err::<u64, CommitError>(CommitError::DigestMismatch)
                ==> r is DigestMismatch,
            *outcome == Err::<u64, CommitError>(CommitError::UnknownUpload) ==> r is UnknownError,
            *outcome == Err::<u64, CommitError>(CommitError::StorageIoError) ==> r is UnknownError,
    {
        match outcome {
            Ok(_) => UuidAcceptResponse::UuidAccept { uuid, digest, name, repo },
            Err(CommitError::DigestMismatch) => UuidAcceptResponse::DigestMismatch,
            Err(CommitError::UnknownUpload) => UuidAcceptResponse::UnknownError,
            Err(CommitError::StorageIoError) => UuidAcceptResponse::UnknownError,
        }
    }

    /// The decision core of the upload-deletion handler: how a cancel's
    /// outcome answers the request.
    pub fn from_cancel(outcome: &Result<(), CancelError>) -> (r: UuidAcceptResponse)
        ensures
            outcome is Ok ==> r is UuidDelete,
            outcome is Err ==> r is UnknownError,
    {
        match outcome {
            Ok(_) => UuidAcceptResponse::UuidDelete,
            Err(CancelError::UnknownUpload) => UuidAcceptResponse::UnknownError,
        }
    }

    /// Whether the response reports a successfully terminated upload.
    pub fn is_success(&self) -> (r: bool)
        ensures
            r == (self is UuidAccept || self is UuidDelete),
    {
        match self {
            UuidAcceptResponse::UuidAccept { .. } => true,
            UuidAcceptResponse::UuidDelete => true,
            UuidAcceptResponse::DigestMismatch => false,
            UuidAcceptResponse::UnknownError => false,
        }
    }
}

} // verus!
