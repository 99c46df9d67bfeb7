//! Session lifecycle: generation, existence, listing, cancellation.

use lycaon_backend::backend::BackendService;
use lycaon_backend::errors::CancelError;

#[test]
fn generated_ids_are_distinct_and_active() {
    let mut svc = BackendService::new();
    let a = svc.gen_uuid();
    assert!(svc.uuid_exists(&a));
    let b = svc.gen_uuid();
    assert!(svc.uuid_exists(&b));
    let c = svc.gen_uuid();
    assert!(svc.uuid_exists(&c));
    assert_ne!(a, b);
    assert_ne!(a, c);
    assert_ne!(b, c);
}

#[test]
fn ids_stay_distinct_after_termination() {
    let mut svc = BackendService::new();
    let a = svc.gen_uuid();
    svc.cancel_upload(&a).unwrap();
    let b = svc.gen_uuid();
    let c = svc.gen_uuid();
    assert_ne!(a, b);
    assert_ne!(a, c);
    assert_ne!(b, c);
}

#[test]
fn unknown_session_does_not_exist() {
    let svc = BackendService::new();
    assert!(!svc.uuid_exists(&String::from("no-such-session")));
}

#[test]
fn cancel_then_exists_is_false_and_second_cancel_fails() {
    let mut svc = BackendService::new();
    let id = svc.gen_uuid();
    assert!(svc.cancel_upload(&id).is_ok());
    assert!(!svc.uuid_exists(&id));
    assert_eq!(svc.cancel_upload(&id), Err(CancelError::UnknownUpload));
}

#[test]
fn cancel_of_never_issued_id_fails() {
    let mut svc = BackendService::new();
    let r = svc.cancel_upload(&String::from("never-issued"));
    assert_eq!(r, Err(CancelError::UnknownUpload));
}

#[test]
fn cancel_discards_staged_content() {
    let mut svc = BackendService::new();
    let id = svc.gen_uuid();
    let chunk: Vec<u8> = vec![9u8; 16];
    assert_eq!(svc.patch_blob(&id, &chunk), Some(16));
    assert!(svc.cancel_upload(&id).is_ok());
    assert!(!svc.delete_blob_by_uuid(&id));
}

#[test]
fn get_uuids_lists_each_active_session_once() {
    let mut svc = BackendService::new();
    let a = svc.gen_uuid();
    let b = svc.gen_uuid();
    let c = svc.gen_uuid();
    svc.cancel_upload(&b).unwrap();
    let listed = svc.get_uuids();
    assert_eq!(listed.len(), 2);
    assert!(listed.contains(&a));
    assert!(!listed.contains(&b));
    assert!(listed.contains(&c));
}

#[test]
fn patch_blob_accumulates_and_reports_length() {
    let mut svc = BackendService::new();
    let id = svc.gen_uuid();
    assert_eq!(svc.patch_blob(&id, &b"hello ".to_vec()), Some(6));
    assert_eq!(svc.patch_blob(&id, &b"world".to_vec()), Some(11));
    assert!(svc.delete_blob_by_uuid(&id));
    assert!(!svc.delete_blob_by_uuid(&id));
}

#[test]
fn patch_blob_refuses_unknown_session() {
    let mut svc = BackendService::new();
    assert_eq!(svc.patch_blob(&String::from("ghost"), &b"data".to_vec()), None);
}
