//! A store of byte contents keyed by identifier strings, seen in contracts
//! as a `Map<Seq<char>, Seq<u8>>`. Backs both the staging area (keyed by
//! session identifier) and the permanent blob store (keyed by digest).

use vstd::prelude::*;

use crate::idseq::{distinct_ids, lemma_push_contains, lemma_remove_contains};

verus! {

/// The key views of a sequence of entries.
spec fn keys_of(es: Seq<(String, Vec<u8>)>) -> Seq<Seq<char>> {
    es.map_values(|e: (String, Vec<u8>)| e.0@)
}

/// The index of the (unique) entry whose key reads as `k`.
spec fn key_index(es: Seq<(String, Vec<u8>)>, k: Seq<char>) -> int {
    choose|i: int| 0 <= i < es.len() && es[i].0@ == k
}

/// The entries, read as a map from key to content.
spec fn as_map(es: Seq<(String, Vec<u8>)>) -> Map<Seq<char>, Seq<u8>> {
    Map::new(
        |k: Seq<char>| keys_of(es).contains(k),
        |k: Seq<char>| es[key_index(es, k)].1@,
    )
}

/// With repeat-free keys, the entry at `i` is what the map holds at its key.
proof fn lemma_key_index(es: Seq<(String, Vec<u8>)>, i: int)
    requires
        distinct_ids(keys_of(es)),
        0 <= i < es.len(),
    ensures
        key_index(es, es[i].0@) == i,
        as_map(es).dom().contains(es[i].0@),
        as_map(es)[es[i].0@] == es[i].1@,
{
    assert(keys_of(es)[i] == es[i].0@);
    assert(keys_of(es).contains(es[i].0@));
    let j = key_index(es, es[i].0@);
    assert(0 <= j < es.len() && es[j].0@ == es[i].0@);
    assert(keys_of(es)[j] == keys_of(es)[i]);
}

/// Taking an entry out takes exactly its key out of the map.
proof fn lemma_as_map_remove(es: Seq<(String, Vec<u8>)>, i: int)
    requires
        distinct_ids(keys_of(es)),
        0 <= i < es.len(),
    ensures
        distinct_ids(keys_of(es.remove(i))),
        as_map(es.remove(i)) =~= as_map(es).remove(es[i].0@),
{
    let rest = es.remove(i);
    es.remove_ensures(i);
    assert(keys_of(rest) =~= keys_of(es).remove(i));
    keys_of(es).remove_ensures(i);
    assert forall|a: int, b: int|
        0 <= a < b < keys_of(rest).len() implies keys_of(rest)[a] != keys_of(rest)[b] by {
        assert(keys_of(es).remove(i)[a] == if a < i {
            keys_of(es)[a]
        } else {
            keys_of(es)[a + 1]
        });
        assert(keys_of(es).remove(i)[b] == if b < i {
            keys_of(es)[b]
        } else {
            keys_of(es)[b + 1]
        });
    }
    assert forall|k: Seq<char>|
        as_map(rest).dom().contains(k) == as_map(es).remove(es[i].0@).dom().contains(k) by {
        lemma_remove_contains(keys_of(es), i, k);
        if keys_of(rest).contains(k) {
            let j = choose|j: int| 0 <= j < keys_of(es).len() && j != i && keys_of(es)[j] == k;
            assert(keys_of(es)[j] != keys_of(es)[i]);
        }
        if keys_of(es).contains(k) && k != es[i].0@ {
            let j = choose|j: int| 0 <= j < keys_of(es).len() && keys_of(es)[j] == k;
            assert(j != i);
        }
    }
    assert forall|k: Seq<char>| as_map(rest).dom().contains(k) implies as_map(rest)[k] == as_map(
        es,
    ).remove(es[i].0@)[k] by {
        let jr = key_index(rest, k);
        assert(0 <= jr < rest.len() && rest[jr].0@ == k);
        let jo: int = if jr < i {
            jr
        } else {
            jr + 1
        };
        assert(rest[jr] == es[jo]);
        lemma_key_index(rest, jr);
        lemma_key_index(es, jo);
    }
}

/// Appending an entry under an unused key adds exactly that binding.
proof fn lemma_as_map_push(es: Seq<(String, Vec<u8>)>, e: (String, Vec<u8>))
    requires
        distinct_ids(keys_of(es)),
        !keys_of(es).contains(e.0@),
    ensures
        distinct_ids(keys_of(es.push(e))),
        as_map(es.push(e)) =~= as_map(es).insert(e.0@, e.1@),
{
    let grown = es.push(e);
    assert(keys_of(grown) =~= keys_of(es).push(e.0@));
    assert forall|a: int, b: int|
        0 <= a < b < keys_of(grown).len() implies keys_of(grown)[a] != keys_of(grown)[b] by {
        if b == es.len() {
            assert(keys_of(grown)[a] == keys_of(es)[a]);
            assert(keys_of(es).contains(keys_of(es)[a]));
        }
    }
    assert forall|k: Seq<char>|
        as_map(grown).dom().contains(k) == as_map(es).insert(e.0@, e.1@).dom().contains(k) by {
        lemma_push_contains(keys_of(es), e.0@, k);
    }
    assert forall|k: Seq<char>| as_map(grown).dom().contains(k) implies as_map(grown)[k] == as_map(
        es,
    ).insert(e.0@, e.1@)[k] by {
        lemma_push_contains(keys_of(es), e.0@, k);
        if k == e.0@ {
            assert(grown[es.len() as int] == e);
            lemma_key_index(grown, es.len() as int);
        } else {
            let j = choose|j: int| 0 <= j < keys_of(es).len() && keys_of(es)[j] == k;
            assert(es[j].0@ == k);
            assert(grown[j] == es[j]);
            lemma_key_index(grown, j);
            lemma_key_index(es, j);
        }
    }
}

/// A store of byte contents keyed by identifier strings.
pub struct ContentMap {
    entries: Vec<(String, Vec<u8>)>,
}

impl View for ContentMap {
    type V = Map<Seq<char>, Seq<u8>>;

    closed spec fn view(&self) -> Map<Seq<char>, Seq<u8>> {
        as_map(self.entries@)
    }
}

impl ContentMap {
    /// Internal consistency: no key is bound twice.
    pub closed spec fn wf(&self) -> bool {
        distinct_ids(keys_of(self.entries@))
    }

    /// An empty store.
    pub fn new() -> (r: ContentMap)
        ensures
            r.wf(),
            r@ =~= Map::<Seq<char>, Seq<u8>>::empty(),
    {
        let r = ContentMap { entries: Vec::new() };
        proof {
            assert(r@ =~= Map::<Seq<char>, Seq<u8>>::empty());
        }
        r
    }

    /// Whether some content is stored under `k`.
    pub fn contains_key(&self, k: &String) -> (r: bool)
        ensures
            r == self@.dom().contains(k@),
    {
        let mut i: usize = 0;
        while i < self.entries.len()
            invariant
                i <= self.entries@.len(),
                forall|j: int| 0 <= j < i ==> self.entries@[j].0@ != k@,
            decreases self.entries@.len() - i,
        {
            if self.entries[i].0.eq(k) {
                assert(keys_of(self.entries@)[i as int] == k@);
                return true;
            }
            i = i + 1;
        }
        proof {
            if keys_of(self.entries@).contains(k@) {
                let j = choose|j: int|
                    0 <= j < keys_of(self.entries@).len() && keys_of(self.entries@)[j] == k@;
                assert(self.entries@[j].0@ == k@);
            }
        }
        false
    }

    /// The content stored under `k`, if any.
    pub fn get(&self, k: &String) -> (r: Option<&Vec<u8>>)
        requires
            self.wf(),
        ensures
            r is Some <==> self@.dom().contains(k@),
            r matches Some(v) ==> v@ == self@[k@],
    {
        let mut i: usize = 0;
        while i < self.entries.len()
            invariant
                self.wf(),
                i <= self.entries@.len(),
                forall|j: int| 0 <= j < i ==> self.entries@[j].0@ != k@,
            decreases self.entries@.len() - i,
        {
            if self.entries[i].0.eq(k) {
                proof {
                    lemma_key_index(self.entries@, i as int);
                }
                return Some(&self.entries[i].1);
            }
            i = i + 1;
        }
        proof {
            if keys_of(self.entries@).contains(k@) {
                let j = choose|j: int|
                    0 <= j < keys_of(self.entries@).len() && keys_of(self.entries@)[j] == k@;
                assert(self.entries@[j].0@ == k@);
            }
        }
        None
    }

    /// Takes the content under `k` out of the store and hands it back;
    /// afterwards nothing is stored under `k`.
    pub fn take_out(&mut self, k: &String) -> (r: Option<Vec<u8>>)
        requires
            old(self).wf(),
        ensures
            final(self).wf(),
            r is Some <==> old(self)@.dom().contains(k@),
            r matches Some(v) ==> v@ == old(self)@[k@],
            final(self)@ == old(self)@.remove(k@),
    {
        let mut i: usize = 0;
        while i < self.entries.len()
            invariant
                *self == *old(self),
                old(self).wf(),
                i <= self.entries@.len(),
                forall|j: int| 0 <= j < i ==> self.entries@[j].0@ != k@,
            decreases self.entries@.len() - i,
        {
            if self.entries[i].0.eq(k) {
                proof {
                    assert(keys_of(self.entries@)[i as int] == k@);
                    lemma_key_index(self.entries@, i as int);
                    lemma_as_map_remove(self.entries@, i as int);
                }
                let e = self.entries.remove(i);
                return Some(e.1);
            }
            i = i + 1;
        }
        proof {
            if keys_of(self.entries@).contains(k@) {
                let j = choose|j: int|
                    0 <= j < keys_of(self.entries@).len() && keys_of(self.entries@)[j] == k@;
                assert(self.entries@[j].0@ == k@);
            }
            assert(self@ =~= old(self)@.remove(k@));
        }
        None
    }

    /// Stores `v` under the unused key `k`.
    pub fn put_new(&mut self, k: String, v: Vec<u8>)
        requires
            old(self).wf(),
            !old(self)@.dom().contains(k@),
        ensures
            final(self).wf(),
            final(self)@ == old(self)@.insert(k@, v@),
    {
        proof {
            if keys_of(self.entries@).contains(k@) {
                assert(as_map(self.entries@).dom().contains(k@));
            }
            lemma_as_map_push(self.entries@, (k, v));
        }
        self.entries.push((k, v));
    }
}

} // verus!
