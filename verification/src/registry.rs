//! The upload registry: the set of currently active upload-session
//! identifiers, together with the full history of identifiers ever handed
//! out, so that an identifier is never issued twice.

use vstd::prelude::*;
use vstd::string::{StrSliceExecFns, StringExecFns};

use crate::idseq::{
    distinct_ids, ids_of, lemma_push_contains, lemma_remove_contains, lemma_remove_distinct,
};

verus! {

/// What the registry looks like from outside: the set of active session
/// identifiers, and the sequence of all identifiers ever issued.
pub ghost struct RegistryView {
    pub active: Set<Seq<char>>,
    pub issued: Seq<Seq<char>>,
}

/// Tracks the active upload sessions; the single arbitration point that
/// decides which of a racing commit and cancel terminates a session.
pub struct UploadRegistry {
    active: Vec<String>,
    issued: Vec<String>,
}

/// Relies on `uuid::Uuid::new_v4`: a fresh random 128-bit identifier,
/// rendered in its canonical text form. Nothing is assumed of the text.
#[verifier::external_body]
fn random_uuid_string() -> String {
    uuid::Uuid::new_v4().to_string()
}

/// Whether some identifier in `v` reads as `id`.
fn contains_id(v: &Vec<String>, id: &String) -> (r: bool)
    ensures
        r == ids_of(v@).contains(id@),
{
    let mut i: usize = 0;
    while i < v.len()
        invariant
            i <= v@.len(),
            forall|j: int| 0 <= j < i ==> v@[j]@ != id@,
        decreases v@.len() - i,
    {
        if v[i].eq(id) {
            assert(ids_of(v@)[i as int] == id@);
            return true;
        }
        i = i + 1;
    }
    proof {
        if ids_of(v@).contains(id@) {
            let j = choose|j: int| 0 <= j < ids_of(v@).len() && ids_of(v@)[j] == id@;
            assert(v@[j]@ == id@);
        }
    }
    false
}

/// An upper bound on the lengths of the identifiers in `v`.
fn max_id_len(v: &Vec<String>) -> (m: usize)
    ensures
        forall|j: int| 0 <= j < v@.len() ==> v@[j]@.len() <= m,
{
    let mut m: usize = 0;
    let mut i: usize = 0;
    while i < v.len()
        invariant
            i <= v@.len(),
            forall|j: int| 0 <= j < i ==> v@[j]@.len() <= m,
        decreases v@.len() - i,
    {
        let l = v[i].as_str().unicode_len();
        if l > m {
            m = l;
        }
        i = i + 1;
    }
    m
}

/// Draws a random identifier and, should it ever collide with one issued
/// before, lengthens it until it is fresh.
fn fresh_id(issued: &Vec<String>) -> (r: String)
    ensures
        !ids_of(issued@).contains(r@),
{
    let mut candidate = random_uuid_string();
    let bound = max_id_len(issued);
    let mut taken = contains_id(issued, &candidate);
    while taken
        invariant
            taken == ids_of(issued@).contains(candidate@),
            forall|j: int| 0 <= j < issued@.len() ==> issued@[j]@.len() <= bound,
        decreases bound + 1 - candidate@.len(),
    {
        proof {
            let j = choose|j: int|
                0 <= j < ids_of(issued@).len() && ids_of(issued@)[j] == candidate@;
            assert(issued@[j]@.len() <= bound);
            reveal_strlit("x");
        }
        candidate.append("x");
        taken = contains_id(issued, &candidate);
    }
    candidate
}

impl UploadRegistry {
    /// Internal consistency: no identifier was issued twice, the active ones
    /// are pairwise distinct, and every active identifier was issued.
    pub closed spec fn wf(&self) -> bool {
        &&& distinct_ids(ids_of(self.issued@))
        &&& distinct_ids(ids_of(self.active@))
        &&& forall|k: Seq<char>|
            ids_of(self.active@).contains(k) ==> ids_of(self.issued@).contains(k)
    }

    /// An empty registry: no session has ever existed.
    pub fn new() -> (r: UploadRegistry)
        ensures
            r.wf(),
            r@.active =~= Set::<Seq<char>>::empty(),
            r@.issued =~= Seq::<Seq<char>>::empty(),
    {
        let r = UploadRegistry { active: Vec::new(), issued: Vec::new() };
        proof {
            assert(r@.active =~= Set::<Seq<char>>::empty());
        }
        r
    }

    /// Issues a fresh identifier, never seen before, and activates it.
    pub fn create(&mut self) -> (r: String)
        requires
            old(self).wf(),
        ensures
            final(self).wf(),
            !old(self)@.issued.contains(r@),
            final(self)@.issued == old(self)@.issued.push(r@),
            final(self)@.active == old(self)@.active.insert(r@),
    {
        let id = fresh_id(&self.issued);
        self.issued.push(id.clone());
        self.active.push(id.clone());
        proof {
            let old_issued = ids_of(old(self).issued@);
            let old_active = ids_of(old(self).active@);
            assert(ids_of(self.issued@) =~= old_issued.push(id@));
            assert(ids_of(self.active@) =~= old_active.push(id@));
            old_active.lemma_push_to_set_commute(id@);
            assert(self@.active =~= old(self)@.active.insert(id@));
            assert(!old_active.contains(id@));
            assert forall|i: int, j: int|
                0 <= i < j < old_issued.push(id@).len() implies old_issued.push(id@)[i]
                != old_issued.push(id@)[j] by {
                if j == old_issued.len() {
                    assert(old_issued.push(id@)[i] == old_issued[i]);
                    assert(old_issued.contains(old_issued[i]));
                }
            }
            assert forall|i: int, j: int|
                0 <= i < j < old_active.push(id@).len() implies old_active.push(id@)[i]
                != old_active.push(id@)[j] by {
                if j == old_active.len() {
                    assert(old_active.push(id@)[i] == old_active[i]);
                    assert(old_active.contains(old_active[i]));
                }
            }
            assert forall|k: Seq<char>|
                ids_of(self.active@).contains(k) implies ids_of(self.issued@).contains(k) by {
                lemma_push_contains(old_active, id@, k);
                lemma_push_contains(old_issued, id@, k);
            }
        }
        id
    }

    /// Whether `id` is a currently active session.
    pub fn is_active(&self, id: &String) -> (r: bool)
        ensures
            r == self@.active.contains(id@),
    {
        contains_id(&self.active, id)
    }

    /// Atomically takes `id` out of the active set if it is there; the one
    /// compare-and-remove primitive commit and cancel both go through.
    pub fn remove(&mut self, id: &String) -> (r: bool)
        requires
            old(self).wf(),
        ensures
            final(self).wf(),
            r == old(self)@.active.contains(id@),
            final(self)@.active == old(self)@.active.remove(id@),
            final(self)@.issued == old(self)@.issued,
    {
        let mut i: usize = 0;
        while i < self.active.len()
            invariant
                *self == *old(self),
                old(self).wf(),
                i <= self.active@.len(),
                forall|j: int| 0 <= j < i ==> self.active@[j]@ != id@,
            decreases self.active@.len() - i,
        {
            if self.active[i].eq(id) {
                proof {
                    assert(ids_of(self.active@)[i as int] == id@);
                    lemma_remove_distinct(ids_of(self.active@), i as int);
                }
                let ghost pre = self.active@;
                self.active.remove(i);
                proof {
                    assert(ids_of(self.active@) =~= ids_of(pre).remove(i as int)) by {
                        ids_of(pre).remove_ensures(i as int);
                    }
                    assert forall|k: Seq<char>|
                        ids_of(self.active@).contains(k) implies ids_of(
                        self.issued@,
                    ).contains(k) by {
                        lemma_remove_contains(ids_of(pre), i as int, k);
                    }
                }
                return true;
            }
            i = i + 1;
        }
        proof {
            if ids_of(self.active@).contains(id@) {
                let j = choose|j: int|
                    0 <= j < ids_of(self.active@).len() && ids_of(self.active@)[j] == id@;
                assert(self.active@[j]@ == id@);
            }
            assert(self@.active =~= old(self)@.active.remove(id@));
        }
        false
    }

    /// A point-in-time copy of the active identifiers, each exactly once.
    pub fn snapshot(&self) -> (r: Vec<String>)
        requires
            self.wf(),
        ensures
            distinct_ids(ids_of(r@)),
            ids_of(r@).to_set() == self@.active,
    {
        let mut out: Vec<String> = Vec::new();
        let mut i: usize = 0;
        while i < self.active.len()
            invariant
                i <= self.active@.len(),
                ids_of(out@) =~= ids_of(self.active@).take(i as int),
            decreases self.active@.len() - i,
        {
            let ghost pre = out@;
            out.push(self.active[i].clone());
            proof {
                assert(ids_of(out@) =~= ids_of(pre).push(self.active@[i as int]@));
                assert(ids_of(self.active@).take(i + 1) =~= ids_of(self.active@).take(
                    i as int,
                ).push(ids_of(self.active@)[i as int]));
            }
            i = i + 1;
        }
        proof {
            assert(ids_of(self.active@).take(self.active@.len() as int) =~= ids_of(self.active@));
            assert(ids_of(out@).to_set() =~= self@.active);
        }
        out
    }
}

impl View for UploadRegistry {
    type V = RegistryView;

    closed spec fn view(&self) -> RegistryView {
        RegistryView { active: ids_of(self.active@).to_set(), issued: ids_of(self.issued@) }
    }
}

} // verus!
