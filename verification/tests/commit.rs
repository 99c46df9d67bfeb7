//! The commit pipeline: round trips, digest rejection, exclusivity of
//! commit and cancel, and the error taxonomy.

use lycaon_backend::backend::BackendService;
use lycaon_backend::crypto::digest_string;
use lycaon_backend::errors::{CancelError, CommitError};

const HELLO_DIGEST: &str = "sha256:b94d27b9934d3e08a52e52d7da7dabfac484efe37a5380ee9088f7ace2efcde9";

#[test]
fn round_trip_hello_world() {
    let mut svc = BackendService::new();
    let id = svc.gen_uuid();
    assert_eq!(svc.patch_blob(&id, &b"hello world".to_vec()), Some(11));
    let claimed = String::from(HELLO_DIGEST);
    assert_eq!(svc.commit_upload(&id, &claimed), Ok(11));
    assert!(!svc.uuid_exists(&id));
    assert_eq!(svc.layer_exists(&claimed), Some(11));
    assert!(!svc.delete_blob_by_uuid(&id));
}

#[test]
fn commit_with_computed_digest_succeeds() {
    let mut svc = BackendService::new();
    let id = svc.gen_uuid();
    let content: Vec<u8> = vec![0u8; 4096];
    assert_eq!(svc.patch_blob(&id, &content), Some(4096));
    let claimed = digest_string(&content);
    assert_eq!(svc.commit_upload(&id, &claimed), Ok(4096));
    assert_eq!(svc.layer_exists(&claimed), Some(4096));
}

#[test]
fn commit_with_unrelated_digest_is_rejected() {
    let mut svc = BackendService::new();
    let id = svc.gen_uuid();
    let content: Vec<u8> = vec![0u8; 4096];
    assert_eq!(svc.patch_blob(&id, &content), Some(4096));
    let unrelated = String::from("sha256:0000000000000000000000000000000000000000000000000000000000000000");
    assert_eq!(svc.commit_upload(&id, &unrelated), Err(CommitError::DigestMismatch));
    assert_eq!(svc.layer_exists(&unrelated), None);
    assert!(!svc.uuid_exists(&id));
    assert_eq!(svc.commit_upload(&id, &unrelated), Err(CommitError::UnknownUpload));
    assert!(!svc.delete_blob_by_uuid(&id));
}

#[test]
fn mismatch_then_retry_needs_fresh_session() {
    let mut svc = BackendService::new();
    let id = svc.gen_uuid();
    svc.patch_blob(&id, &b"hello world".to_vec()).unwrap();
    let wrong = String::from("sha256:ffffffffffffffffffffffffffffffffffffffffffffffffffffffffffffffff");
    assert_eq!(svc.commit_upload(&id, &wrong), Err(CommitError::DigestMismatch));
    let fresh = svc.gen_uuid();
    assert_ne!(fresh, id);
    svc.patch_blob(&fresh, &b"hello world".to_vec()).unwrap();
    assert_eq!(svc.commit_upload(&fresh, &String::from(HELLO_DIGEST)), Ok(11));
}

#[test]
fn commit_of_unknown_session_fails() {
    let mut svc = BackendService::new();
    let r = svc.commit_upload(&String::from("ghost"), &String::from(HELLO_DIGEST));
    assert_eq!(r, Err(CommitError::UnknownUpload));
}

#[test]
fn commit_without_staged_content_is_storage_error() {
    let mut svc = BackendService::new();
    let id = svc.gen_uuid();
    let r = svc.commit_upload(&id, &String::from(HELLO_DIGEST));
    assert_eq!(r, Err(CommitError::StorageIoError));
    assert!(!svc.uuid_exists(&id));
}

#[test]
fn commit_then_cancel_exactly_one_succeeds() {
    let mut svc = BackendService::new();
    let id = svc.gen_uuid();
    svc.patch_blob(&id, &b"hello world".to_vec()).unwrap();
    let committed = svc.commit_upload(&id, &String::from(HELLO_DIGEST));
    let cancelled = svc.cancel_upload(&id);
    assert_eq!(committed, Ok(11));
    assert_eq!(cancelled, Err(CancelError::UnknownUpload));
    assert_eq!(svc.layer_exists(&String::from(HELLO_DIGEST)), Some(11));
    assert!(!svc.delete_blob_by_uuid(&id));
}

#[test]
fn cancel_then_commit_exactly_one_succeeds() {
    let mut svc = BackendService::new();
    let id = svc.gen_uuid();
    svc.patch_blob(&id, &b"hello world".to_vec()).unwrap();
    let cancelled = svc.cancel_upload(&id);
    let committed = svc.commit_upload(&id, &String::from(HELLO_DIGEST));
    assert_eq!(cancelled, Ok(()));
    assert_eq!(committed, Err(CommitError::UnknownUpload));
    assert_eq!(svc.layer_exists(&String::from(HELLO_DIGEST)), None);
    assert!(!svc.delete_blob_by_uuid(&id));
}

#[test]
fn published_blobs_are_write_once() {
    let mut svc = BackendService::new();
    let claimed = String::from(HELLO_DIGEST);
    let first = svc.gen_uuid();
    svc.patch_blob(&first, &b"hello world".to_vec()).unwrap();
    assert_eq!(svc.commit_upload(&first, &claimed), Ok(11));
    let second = svc.gen_uuid();
    svc.patch_blob(&second, &b"hello world".to_vec()).unwrap();
    assert_eq!(svc.commit_upload(&second, &claimed), Ok(11));
    assert_eq!(svc.layer_exists(&claimed), Some(11));
}

#[test]
fn layer_exists_on_empty_store_is_none() {
    let svc = BackendService::new();
    assert_eq!(svc.layer_exists(&String::from(HELLO_DIGEST)), None);
}
