//! The service facade: the one surface the routing layer calls. It owns
//! the session registry, the staging area and the permanent blob store,
//! and drives the verify-then-publish commit pipeline.

use vstd::prelude::*;
use vstd::slice::slice_to_vec;

use crate::cmap::ContentMap;
use crate::crypto::{digest_str_of, digest_string, MAX_BLOB_LEN};
use crate::errors::{CancelError, CommitError};
use crate::idseq::{distinct_ids, ids_of};
use crate::model::{
    cancel_accepted, cancel_result, commit_accepted, commit_result, gen_result, inv,
    lemma_cancel_preserves_inv, lemma_commit_preserves_inv, lemma_gen_preserves_inv,
    lemma_stage_preserves_inv, stage_accepted, stage_result, staged_or_empty, StateView,
};
use crate::registry::UploadRegistry;

verus! {

/// The store behind the registry's blob endpoints: active upload sessions,
/// their staged content, and the published, digest-keyed blobs.
pub struct BackendService {
    registry: UploadRegistry,
    staged: ContentMap,
    blobs: ContentMap,
}

impl View for BackendService {
    type V = StateView;

    closed spec fn view(&self) -> StateView {
        StateView {
            active: self.registry@.active,
            issued: self.registry@.issued,
            staged: self.staged@,
            blobs: self.blobs@,
        }
    }
}

impl BackendService {
    /// Internal consistency of the three components, and the abstract
    /// invariant of the state they present.
    pub closed spec fn wf(&self) -> bool {
        &&& self.registry.wf()
        &&& self.staged.wf()
        &&& self.blobs.wf()
        &&& inv(self@)
    }

    /// A well-formed service presents a state the abstract invariant holds
    /// of, so every law stated over `inv` applies to it.
    pub proof fn lemma_wf_inv(&self)
        requires
            self.wf(),
        ensures
            inv(self@),
    {
    }

    /// A fresh service: no session has ever existed, nothing is staged,
    /// nothing is published.
    pub fn new() -> (r: BackendService)
        ensures
            r.wf(),
            r@.active == Set::<Seq<char>>::empty(),
            r@.issued == Seq::<Seq<char>>::empty(),
            r@.staged == Map::<Seq<char>, Seq<u8>>::empty(),
            r@.blobs == Map::<Seq<char>, Seq<u8>>::empty(),
    {
        let r = BackendService {
            registry: UploadRegistry::new(),
            staged: ContentMap::new(),
            blobs: ContentMap::new(),
        };
        r
    }

    /// Opens a new upload session under an identifier never issued before,
    /// and reports it active.
    pub fn gen_uuid(&mut self) -> (r: String)
        requires
            old(self).wf(),
        ensures
            final(self).wf(),
            final(self)@ == gen_result(old(self)@, r@),
            !old(self)@.issued.contains(r@),
            final(self)@.active.contains(r@),
    {
        let id = self.registry.create();
        proof {
            assert(self@ =~= gen_result(old(self)@, id@));
            lemma_gen_preserves_inv(old(self)@, id@);
        }
        id
    }

    /// Whether `uuid` is a currently active upload session.
    pub fn uuid_exists(&self, uuid: &String) -> (r: bool)
        ensures
            r == self@.active.contains(uuid@),
    {
        self.registry.is_active(uuid)
    }

    /// A point-in-time copy of the active session identifiers, each exactly
    /// once.
    pub fn get_uuids(&self) -> (r: Vec<String>)
        requires
            self.wf(),
        ensures
            distinct_ids(ids_of(r@)),
            ids_of(r@).to_set() == self@.active,
    {
        self.registry.snapshot()
    }

    /// Appends a chunk to the staged content of an active session, and
    /// returns the staged byte count so far; refuses sessions it does not
    /// know, and content past what the digest function accepts.
    pub fn patch_blob(&mut self, uuid: &String, chunk: &Vec<u8>) -> (r: Option<u64>)
        requires
            old(self).wf(),
        ensures
            final(self).wf(),
            final(self)@ == stage_result(old(self)@, uuid@, chunk@),
            r is Some <==> stage_accepted(old(self)@, uuid@, chunk@),
            r matches Some(n) ==> n as nat == staged_or_empty(old(self)@, uuid@).len()
                + chunk@.len(),
    {
        proof {
            lemma_stage_preserves_inv(old(self)@, uuid@, chunk@);
        }
        if !self.registry.is_active(uuid) {
            return None;
        }
        let cur_len: u64 = match self.staged.get(uuid) {
            None => 0,
            Some(v) => v.len() as u64,
        };
        if chunk.len() as u64 > MAX_BLOB_LEN - cur_len {
            return None;
        }
        let content = match self.staged.take_out(uuid) {
            None => slice_to_vec(chunk.as_slice()),
            Some(mut c) => {
                let ghost pre = c@;
                c.extend_from_slice(chunk.as_slice());
                proof {
                    assert(c@ =~= pre + chunk@);
                }
                c
            },
        };
        let n = content.len() as u64;
        self.staged.put_new(uuid.clone(), content);
        proof {
            assert(old(self)@.staged.remove(uuid@).insert(
                uuid@,
                staged_or_empty(old(self)@, uuid@) + chunk@,
            ) =~= old(self)@.staged.insert(uuid@, staged_or_empty(old(self)@, uuid@) + chunk@));
            assert(self@ =~= stage_result(old(self)@, uuid@, chunk@));
        }
        Some(n)
    }

    /// Terminates an active session and discards whatever it staged;
    /// deletion of the staged content is idempotent. Exactly the sessions
    /// absent from the registry are refused.
    pub fn cancel_upload(&mut self, uuid: &String) -> (r: Result<(), CancelError>)
        requires
            old(self).wf(),
        ensures
            final(self).wf(),
            final(self)@ == cancel_result(old(self)@, uuid@),
            r is Ok <==> cancel_accepted(old(self)@, uuid@),
            r is Err ==> r == Err::<(), CancelError>(CancelError::UnknownUpload),
    {
        proof {
            lemma_cancel_preserves_inv(old(self)@, uuid@);
        }
        if !self.registry.remove(uuid) {
            proof {
                assert(self@ =~= old(self)@);
            }
            return Err(CancelError::UnknownUpload);
        }
        let _discarded = self.staged.take_out(uuid);
        proof {
            assert(self@ =~= cancel_result(old(self)@, uuid@));
        }
        Ok(())
    }

    /// Removes the staged content of a session if any is there; reports
    /// whether there was any. Idempotent, and touches nothing else.
    pub fn delete_blob_by_uuid(&mut self, uuid: &String) -> (r: bool)
        requires
            old(self).wf(),
        ensures
            final(self).wf(),
            r == old(self)@.staged.dom().contains(uuid@),
            final(self)@.staged == old(self)@.staged.remove(uuid@),
            final(self)@.active == old(self)@.active,
            final(self)@.issued == old(self)@.issued,
            final(self)@.blobs == old(self)@.blobs,
    {
        let taken = self.staged.take_out(uuid);
        proof {
            assert forall|k: Seq<char>| #[trigger] self@.staged.dom().contains(k) implies self@
                .active.contains(k) && self@.staged[k].len() <= MAX_BLOB_LEN by {
                assert(old(self)@.staged.dom().contains(k));
            }
            assert forall|d: Seq<char>| #[trigger] self@.blobs.dom().contains(d) implies d
                == digest_str_of(self@.blobs[d]) by {
                assert(old(self)@.blobs.dom().contains(d));
            }
        }
        taken.is_some()
    }

    /// Commits an upload: arbitrates through the registry first, then
    /// verifies the staged content against the claimed digest, and only
    /// then publishes. Succeeds exactly when the session is active, content
    /// is staged, and the claim is the content's canonical digest; the
    /// returned length is the staged byte count.
    pub fn commit_upload(&mut self, uuid: &String, claimed: &String) -> (r: Result<
        u64,
        CommitError,
    >)
        requires
            old(self).wf(),
        ensures
            final(self).wf(),
            final(self)@ == commit_result(old(self)@, uuid@, claimed@),
            r is Ok <==> commit_accepted(old(self)@, uuid@, claimed@),
            r matches Ok(n) ==> n as nat == old(self)@.staged[uuid@].len(),
            r == Err::<u64, CommitError>(CommitError::UnknownUpload) <==> !old(
                self,
            )@.active.contains(uuid@),
            r == Err::<u64, CommitError>(CommitError::StorageIoError) <==> old(
                self,
            )@.active.contains(uuid@) && !old(self)@.staged.dom().contains(uuid@),
            r == Err::<u64, CommitError>(CommitError::DigestMismatch) <==> old(
                self,
            )@.active.contains(uuid@) && old(self)@.staged.dom().contains(uuid@) && claimed@
                != digest_str_of(old(self)@.staged[uuid@]),
    {
        proof {
            lemma_commit_preserves_inv(old(self)@, uuid@, claimed@);
        }
        if !self.registry.remove(uuid) {
            proof {
                assert(self@ =~= old(self)@);
            }
            return Err(CommitError::UnknownUpload);
        }
        match self.staged.take_out(uuid) {
            None => {
                proof {
                    assert(self@ =~= commit_result(old(self)@, uuid@, claimed@));
                }
                Err(CommitError::StorageIoError)
            },
            Some(content) => {
                proof {
                    assert(old(self)@.staged.dom().contains(uuid@));
                    assert(content@.len() <= MAX_BLOB_LEN);
                }
                let actual = digest_string(&content);
                if !actual.eq(claimed) {
                    proof {
                        assert(self@ =~= commit_result(old(self)@, uuid@, claimed@));
                    }
                    Err(CommitError::DigestMismatch)
                } else {
                    let n = content.len() as u64;
                    if !self.blobs.contains_key(claimed) {
                        self.blobs.put_new(claimed.clone(), content);
                    }
                    proof {
                        assert(self@ =~= commit_result(old(self)@, uuid@, claimed@));
                    }
                    Ok(n)
                }
            },
        }
    }

    /// Whether a blob is published under `digest`, and its byte length if
    /// so. Not a mutating operation.
    pub fn layer_exists(&self, digest: &String) -> (r: Option<u64>)
        requires
            self.wf(),
        ensures
            r is Some <==> self@.blobs.dom().contains(digest@),
            r matches Some(n) ==> n as nat == self@.blobs[digest@].len(),
    {
        match self.blobs.get(digest) {
            None => None,
            Some(v) => Some(v.len() as u64),
        }
    }
}

} // verus!
