//! The guarantees the store gives across whole operations, proved once and
//! for all over the model: freshness of issued identifiers, terminality of
//! commit and cancel, rejection before publication, and the exclusivity of
//! a racing commit and cancel.

use vstd::prelude::*;

use crate::crypto::digest_str_of;
use crate::idseq::distinct_ids;
use crate::model::{
    cancel_accepted, cancel_result, commit_accepted, commit_result, gen_result, inv,
    lemma_gen_preserves_inv, stage_result, StateView,
};

verus! {

/// Opening sessions never repeats an identifier: issuing any identifier
/// not in the issue history keeps the history pairwise distinct, appends
/// the identifier to it, and makes the session immediately active. Since
/// every other operation leaves the history untouched, the identifiers
/// ever returned are pairwise distinct.
pub proof fn lemma_generate_fresh_session(s: StateView, id: Seq<char>)
    requires
        inv(s),
        !s.issued.contains(id),
    ensures
        inv(gen_result(s, id)),
        distinct_ids(gen_result(s, id).issued),
        gen_result(s, id).issued == s.issued.push(id),
        gen_result(s, id).active.contains(id),
{
    lemma_gen_preserves_inv(s, id);
}

/// No operation but opening a session touches the issue history, and
/// opening only appends.
pub proof fn lemma_issued_only_grows(s: StateView, id: Seq<char>, claimed: Seq<char>, chunk: Seq<
    u8,
>)
    ensures
        gen_result(s, id).issued == s.issued.push(id),
        stage_result(s, id, chunk).issued == s.issued,
        cancel_result(s, id).issued == s.issued,
        commit_result(s, id, claimed).issued == s.issued,
{
}

/// Cancelling is terminal: afterwards the session no longer exists, and a
/// second cancel of the same identifier is refused as an unknown upload
/// and changes nothing.
pub proof fn lemma_cancel_is_terminal(s: StateView, id: Seq<char>)
    requires
        cancel_accepted(s, id),
    ensures
        !cancel_result(s, id).active.contains(id),
        !cancel_accepted(cancel_result(s, id), id),
        cancel_result(cancel_result(s, id), id) == cancel_result(s, id),
{
}

/// Committing with the digest of the staged content succeeds: the session
/// ends, the content stands published under that digest with its staged
/// byte count, and the staging location is gone. Should the digest already
/// be published, this holds as long as what stands there is that same
/// content — which the write-once store guarantees short of a hash
/// collision.
pub proof fn lemma_commit_success(s: StateView, id: Seq<char>)
    requires
        inv(s),
        s.active.contains(id),
        s.staged.dom().contains(id),
        s.blobs.dom().contains(digest_str_of(s.staged[id])) ==> s.blobs[digest_str_of(
            s.staged[id],
        )] == s.staged[id],
    ensures
        commit_accepted(s, id, digest_str_of(s.staged[id])),
        !commit_result(s, id, digest_str_of(s.staged[id])).active.contains(id),
        !commit_result(s, id, digest_str_of(s.staged[id])).staged.dom().contains(id),
        commit_result(s, id, digest_str_of(s.staged[id])).blobs.dom().contains(
            digest_str_of(s.staged[id]),
        ),
        commit_result(s, id, digest_str_of(s.staged[id])).blobs[digest_str_of(s.staged[id])]
            == s.staged[id],
{
}

/// Committing with a wrong digest rejects before any publish step: the
/// blob store is left exactly as it was, the staged content is discarded,
/// and the session is terminated, so a retry with the same identifier is
/// refused as an unknown upload and changes nothing.
pub proof fn lemma_commit_mismatch_publishes_nothing(s: StateView, id: Seq<char>, claimed: Seq<
    char,
>)
    requires
        s.active.contains(id),
        s.staged.dom().contains(id),
        claimed != digest_str_of(s.staged[id]),
    ensures
        !commit_accepted(s, id, claimed),
        commit_result(s, id, claimed).blobs == s.blobs,
        !commit_result(s, id, claimed).staged.dom().contains(id),
        !commit_result(s, id, claimed).active.contains(id),
        forall|again: Seq<char>| !commit_accepted(commit_result(s, id, claimed), id, again),
        forall|again: Seq<char>| #[trigger]
            commit_result(commit_result(s, id, claimed), id, again) == commit_result(
                s,
                id,
                claimed,
            ),
{
}

/// Published content is immutable and write-once: whatever stands in the
/// blob store under a digest stands there unchanged after any further
/// operation.
pub proof fn lemma_published_blobs_immutable(
    s: StateView,
    id: Seq<char>,
    claimed: Seq<char>,
    chunk: Seq<u8>,
    d: Seq<char>,
)
    requires
        s.blobs.dom().contains(d),
    ensures
        gen_result(s, id).blobs == s.blobs,
        stage_result(s, id, chunk).blobs == s.blobs,
        cancel_result(s, id).blobs == s.blobs,
        commit_result(s, id, claimed).blobs.dom().contains(d),
        commit_result(s, id, claimed).blobs[d] == s.blobs[d],
{
}

/// For one session, a commit and a cancel in either order: exactly one of
/// the two is accepted and the loser observes an unknown upload and
/// changes nothing. No staged content survives the pair under the
/// session's identifier, and content stands published under the claimed
/// digest exactly when the commit won with a verified claim (or the digest
/// was published before).
pub proof fn lemma_commit_cancel_exclusive(s: StateView, id: Seq<char>, claimed: Seq<char>)
    requires
        inv(s),
        s.active.contains(id),
    ensures
        cancel_accepted(s, id),
        !cancel_accepted(commit_result(s, id, claimed), id),
        cancel_result(commit_result(s, id, claimed), id) == commit_result(s, id, claimed),
        !commit_accepted(cancel_result(s, id), id, claimed),
        commit_result(cancel_result(s, id), id, claimed) == cancel_result(s, id),
        !commit_result(s, id, claimed).staged.dom().contains(id),
        !cancel_result(s, id).staged.dom().contains(id),
        commit_result(s, id, claimed).blobs.dom().contains(claimed) <==> (commit_accepted(
            s,
            id,
            claimed,
        ) || s.blobs.dom().contains(claimed)),
        cancel_result(s, id).blobs == s.blobs,
{
}

} // verus!
