//! Small vocabulary for vectors of identifier strings: their views, and
//! freedom from repeats.

use vstd::prelude::*;

verus! {

/// The views of a vector of identifier strings.
pub open spec fn ids_of(v: Seq<String>) -> Seq<Seq<char>> {
    v.map_values(|s: String| s@)
}

/// No identifier occurs twice.
pub open spec fn distinct_ids(ids: Seq<Seq<char>>) -> bool {
    forall|i: int, j: int| 0 <= i < j < ids.len() ==> ids[i] != ids[j]
}

/// Membership in a sequence with one index taken out: exactly the members
/// found at the other indices.
pub proof fn lemma_remove_contains(ids: Seq<Seq<char>>, i: int, k: Seq<char>)
    requires
        0 <= i < ids.len(),
    ensures
        ids.remove(i).contains(k) <==> exists|j: int|
            0 <= j < ids.len() && j != i && ids[j] == k,
{
    ids.remove_ensures(i);
    if ids.remove(i).contains(k) {
        let idx = choose|idx: int| 0 <= idx < ids.remove(i).len() && ids.remove(i)[idx] == k;
        if idx < i {
            assert(ids[idx] == k);
        } else {
            assert(ids[idx + 1] == k);
        }
    }
    if exists|j: int| 0 <= j < ids.len() && j != i && ids[j] == k {
        let j = choose|j: int| 0 <= j < ids.len() && j != i && ids[j] == k;
        if j < i {
            assert(ids.remove(i)[j] == k);
        } else {
            assert(ids.remove(i)[j - 1] == k);
        }
    }
}

/// Membership in a sequence with one member appended: the old members, and
/// the new one.
pub proof fn lemma_push_contains(ids: Seq<Seq<char>>, x: Seq<char>, k: Seq<char>)
    ensures
        ids.push(x).contains(k) <==> ids.contains(k) || k == x,
{
    if ids.push(x).contains(k) {
        let idx = choose|idx: int| 0 <= idx < ids.push(x).len() && ids.push(x)[idx] == k;
        if idx < ids.len() {
            assert(ids[idx] == k);
        }
    }
    if ids.contains(k) {
        let idx = choose|idx: int| 0 <= idx < ids.len() && ids[idx] == k;
        assert(ids.push(x)[idx] == k);
    }
    assert(ids.push(x)[ids.len() as int] == x);
}

/// Taking an index out of a repeat-free sequence takes that member out of
/// its set of members, and keeps it repeat-free.
pub proof fn lemma_remove_distinct(ids: Seq<Seq<char>>, i: int)
    requires
        distinct_ids(ids),
        0 <= i < ids.len(),
    ensures
        distinct_ids(ids.remove(i)),
        ids.remove(i).to_set() =~= ids.to_set().remove(ids[i]),
{
    ids.remove_ensures(i);
    assert forall|k: Seq<char>| ids.remove(i).contains(k) == ids.to_set().remove(
        ids[i],
    ).contains(k) by {
        lemma_remove_contains(ids, i, k);
        if exists|j: int| 0 <= j < ids.len() && j != i && ids[j] == k {
            let j = choose|j: int| 0 <= j < ids.len() && j != i && ids[j] == k;
            assert(ids[j] != ids[i]);
            assert(ids.contains(k));
        }
        if ids.contains(k) && k != ids[i] {
            let j = choose|j: int| 0 <= j < ids.len() && ids[j] == k;
            assert(j != i);
        }
    }
}

} // verus!
