//! The mathematical model of the store: the state seen in contracts, and
//! the transition each operation performs on it.

use vstd::prelude::*;

use crate::crypto::{digest_str_of, MAX_BLOB_LEN};
use crate::idseq::{distinct_ids, lemma_push_contains};

verus! {

/// Everything the store is, seen abstractly: the active session
/// identifiers, every identifier ever issued, the staged content of each
/// session, and the published content under each digest.
#[verifier::ext_equal]
pub ghost struct StateView {
    pub active: Set<Seq<char>>,
    pub issued: Seq<Seq<char>>,
    pub staged: Map<Seq<char>, Seq<u8>>,
    pub blobs: Map<Seq<char>, Seq<u8>>,
}

/// What always holds of the store: no identifier was ever issued twice,
/// every active identifier was issued, content is staged only under an
/// active session, staged content never outgrows what the digest function
/// accepts, and every published blob stands under the canonical digest of
/// its own content.
pub open spec fn inv(s: StateView) -> bool {
    &&& distinct_ids(s.issued)
    &&& forall|k: Seq<char>| s.active.contains(k) ==> #[trigger] s.issued.contains(k)
    &&& forall|k: Seq<char>| #[trigger]
        s.staged.dom().contains(k) ==> s.active.contains(k) && s.staged[k].len() <= MAX_BLOB_LEN
    &&& forall|d: Seq<char>| #[trigger] s.blobs.dom().contains(d) ==> d == digest_str_of(s.blobs[d])
}

/// The staged content of a session, or nothing yet.
pub open spec fn staged_or_empty(s: StateView, id: Seq<char>) -> Seq<u8> {
    if s.staged.dom().contains(id) {
        s.staged[id]
    } else {
        Seq::empty()
    }
}

/// Issuing the fresh identifier `id` activates it and records it as issued.
pub open spec fn gen_result(s: StateView, id: Seq<char>) -> StateView {
    StateView { active: s.active.insert(id), issued: s.issued.push(id), ..s }
}

/// Whether a chunk is accepted for staging: the session must be active and
/// the grown content must stay within what the digest function accepts.
pub open spec fn stage_accepted(s: StateView, id: Seq<char>, chunk: Seq<u8>) -> bool {
    s.active.contains(id) && staged_or_empty(s, id).len() + chunk.len() <= MAX_BLOB_LEN
}

/// Staging appends the chunk to the session's staged content.
pub open spec fn stage_result(s: StateView, id: Seq<char>, chunk: Seq<u8>) -> StateView {
    if stage_accepted(s, id, chunk) {
        StateView { staged: s.staged.insert(id, staged_or_empty(s, id) + chunk), ..s }
    } else {
        s
    }
}

/// Whether a cancel succeeds: exactly when the session is active.
pub open spec fn cancel_accepted(s: StateView, id: Seq<char>) -> bool {
    s.active.contains(id)
}

/// Cancelling terminates the session and discards its staged content.
pub open spec fn cancel_result(s: StateView, id: Seq<char>) -> StateView {
    if cancel_accepted(s, id) {
        StateView { active: s.active.remove(id), staged: s.staged.remove(id), ..s }
    } else {
        s
    }
}

/// Whether a commit succeeds: the session is active, content is staged, and
/// the claimed digest is the canonical digest of that content.
pub open spec fn commit_accepted(s: StateView, id: Seq<char>, claimed: Seq<char>) -> bool {
    s.active.contains(id) && s.staged.dom().contains(id) && claimed == digest_str_of(s.staged[id])
}

/// Publishing is write-once: content already published under a digest is
/// never overwritten.
pub open spec fn publish(
    blobs: Map<Seq<char>, Seq<u8>>,
    d: Seq<char>,
    content: Seq<u8>,
) -> Map<Seq<char>, Seq<u8>> {
    if blobs.dom().contains(d) {
        blobs
    } else {
        blobs.insert(d, content)
    }
}

/// Committing arbitrates through the active set first; only the winner
/// goes on to verify and publish. A session whose staging is gone is
/// terminated without publishing; a digest mismatch terminates the session
/// and discards the staged content before any publish step; only verified
/// content reaches the blob store.
pub open spec fn commit_result(s: StateView, id: Seq<char>, claimed: Seq<char>) -> StateView {
    if !s.active.contains(id) {
        s
    } else if !s.staged.dom().contains(id) {
        StateView { active: s.active.remove(id), ..s }
    } else if claimed != digest_str_of(s.staged[id]) {
        StateView { active: s.active.remove(id), staged: s.staged.remove(id), ..s }
    } else {
        StateView {
            active: s.active.remove(id),
            staged: s.staged.remove(id),
            blobs: publish(s.blobs, claimed, s.staged[id]),
            ..s
        }
    }
}

/// Issuing a fresh identifier keeps the store consistent.
pub proof fn lemma_gen_preserves_inv(s: StateView, id: Seq<char>)
    requires
        inv(s),
        !s.issued.contains(id),
    ensures
        inv(gen_result(s, id)),
{
    let t = gen_result(s, id);
    assert forall|i: int, j: int| 0 <= i < j < t.issued.len() implies t.issued[i] != t.issued[j] by {
        if j == s.issued.len() {
            assert(t.issued[i] == s.issued[i]);
            assert(s.issued.contains(s.issued[i]));
        }
    }
    assert forall|k: Seq<char>| t.active.contains(k) implies t.issued.contains(k) by {
        lemma_push_contains(s.issued, id, k);
    }
}

/// Staging a chunk keeps the store consistent.
pub proof fn lemma_stage_preserves_inv(s: StateView, id: Seq<char>, chunk: Seq<u8>)
    requires
        inv(s),
    ensures
        inv(stage_result(s, id, chunk)),
{
}

/// Cancelling keeps the store consistent.
pub proof fn lemma_cancel_preserves_inv(s: StateView, id: Seq<char>)
    requires
        inv(s),
    ensures
        inv(cancel_result(s, id)),
{
}

/// Committing keeps the store consistent.
pub proof fn lemma_commit_preserves_inv(s: StateView, id: Seq<char>, claimed: Seq<char>)
    requires
        inv(s),
    ensures
        inv(commit_result(s, id, claimed)),
{
}

} // verus!
