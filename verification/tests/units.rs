//! The smaller pieces: hex rendering, digest strings, paths, value types,
//! and the response mapping.

use lycaon_backend::backend::BackendService;
use lycaon_backend::crypto::digest_string;
use lycaon_backend::errors::{CancelError, CommitError};
use lycaon_backend::hex::hex_string_of;
use lycaon_backend::paths::{layer_path, scratch_path};
use lycaon_backend::response::UuidAcceptResponse;
use lycaon_backend::types::{DigestStruct, Layer};

#[test]
fn hex_rendering_is_exact() {
    assert_eq!(hex_string_of(&vec![]), "");
    assert_eq!(hex_string_of(&vec![0x00u8, 0xff, 0x1a]), "00ff1a");
    assert_eq!(hex_string_of(&vec![0x0fu8, 0xf0]), "0ff0");
}

#[test]
fn digest_string_of_known_content() {
    assert_eq!(
        digest_string(&b"hello world".to_vec()),
        "sha256:b94d27b9934d3e08a52e52d7da7dabfac484efe37a5380ee9088f7ace2efcde9"
    );
}

#[test]
fn digest_string_of_empty_content() {
    assert_eq!(
        digest_string(&Vec::new()),
        "sha256:e3b0c44298fc1c149afbf4c8996fb92427ae41e4649b934ca495991b7852b855"
    );
}

#[test]
fn paths_follow_the_stable_layout() {
    assert_eq!(scratch_path(&String::from("abc-123")), "scratch/abc-123");
    assert_eq!(layer_path(&String::from("sha256:00ff")), "layers/sha256:00ff");
}

#[test]
fn layer_reference_carries_its_parts() {
    let layer = Layer::new(
        String::from("an-image"),
        String::from("a-repo"),
        String::from("sha256:00ff"),
    );
    assert_eq!(layer.name, "an-image");
    assert_eq!(layer.repo, "a-repo");
    assert_eq!(layer.digest(), "sha256:00ff");
}

#[test]
fn digest_struct_carries_the_query() {
    let d = DigestStruct { query: true, digest: String::from("sha256:00ff") };
    assert!(d.query);
    assert_eq!(d.digest, "sha256:00ff");
}

#[test]
fn commit_outcomes_map_to_responses() {
    let accepted = UuidAcceptResponse::from_commit(
        &Ok(11),
        String::from("u"),
        String::from("d"),
        String::from("n"),
        String::from("r"),
    );
    assert!(accepted.is_success());
    assert!(matches!(
        accepted,
        UuidAcceptResponse::UuidAccept { .. }
    ));
    let mismatch = UuidAcceptResponse::from_commit(
        &Err(CommitError::DigestMismatch),
        String::from("u"),
        String::from("d"),
        String::from("n"),
        String::from("r"),
    );
    assert!(matches!(mismatch, UuidAcceptResponse::DigestMismatch));
    assert!(!mismatch.is_success());
    let unknown = UuidAcceptResponse::from_commit(
        &Err(CommitError::UnknownUpload),
        String::from("u"),
        String::from("d"),
        String::from("n"),
        String::from("r"),
    );
    assert!(matches!(unknown, UuidAcceptResponse::UnknownError));
    let storage = UuidAcceptResponse::from_commit(
        &Err(CommitError::StorageIoError),
        String::from("u"),
        String::from("d"),
        String::from("n"),
        String::from("r"),
    );
    assert!(matches!(storage, UuidAcceptResponse::UnknownError));
}

#[test]
fn cancel_outcomes_map_to_responses() {
    let deleted = UuidAcceptResponse::from_cancel(&Ok(()));
    assert!(matches!(deleted, UuidAcceptResponse::UuidDelete));
    assert!(deleted.is_success());
    let unknown = UuidAcceptResponse::from_cancel(&Err(CancelError::UnknownUpload));
    assert!(matches!(unknown, UuidAcceptResponse::UnknownError));
}

#[test]
fn errors_describe_themselves() {
    assert_eq!(CommitError::UnknownUpload.describe(), "unknown upload");
    assert_eq!(CommitError::DigestMismatch.describe(), "digest mismatch");
    assert_eq!(CommitError::StorageIoError.describe(), "storage i/o error");
}

#[test]
fn end_to_end_with_computed_digest_and_paths() {
    let mut svc = BackendService::new();
    let id = svc.gen_uuid();
    let staging = scratch_path(&id);
    assert!(staging.starts_with("scratch/"));
    let content = b"some layer bytes".to_vec();
    svc.patch_blob(&id, &content).unwrap();
    let claimed = digest_string(&content);
    let n = svc.commit_upload(&id, &claimed).unwrap();
    assert_eq!(n, content.len() as u64);
    assert!(layer_path(&claimed).starts_with("layers/sha256:"));
    assert_eq!(svc.layer_exists(&claimed), Some(n));
}
