//! First occurrence of a value in a sequence.

use vstd::prelude::*;

verus! {

/// `i` is the least index at which `s` holds `x`.
pub open spec fn is_first_index<T>(s: Seq<T>, x: T, i: int) -> bool {
    &&& 0 <= i < s.len()
    &&& s[i] == x
    &&& forall|j: int| 0 <= j < i ==> s[j] != x
}

/// The least index at which `s` holds `x`, if it holds `x` at all.
pub open spec fn first_index<T>(s: Seq<T>, x: T) -> Option<int> {
    if exists|i: int| is_first_index(s, x, i) {
        Some(choose|i: int| is_first_index(s, x, i))
    } else {
        None
    }
}

/// A least index is the first index.
pub proof fn lemma_first_index_found<T>(s: Seq<T>, x: T, i: int)
    requires
        is_first_index(s, x, i),
    ensures
        first_index(s, x) == Some(i),
{
    let k = choose|k: int| is_first_index(s, x, k);
    assert(is_first_index(s, x, k));
    if k < i {
        assert(s[k] != x);
    } else if i < k {
        assert(s[i] != x);
    }
}

/// Without an occurrence there is no first index.
pub proof fn lemma_first_index_absent<T>(s: Seq<T>, x: T)
    requires
        forall|j: int| 0 <= j < s.len() ==> s[j] != x,
    ensures
        first_index(s, x).is_none(),
{
    if exists|i: int| is_first_index(s, x, i) {
        let k = choose|k: int| is_first_index(s, x, k);
        assert(s[k] != x);
    }
}

/// What `first_index` returns, read back as facts about the sequence.
pub proof fn lemma_first_index<T>(s: Seq<T>, x: T)
    ensures
        match first_index(s, x) {
            Some(i) => is_first_index(s, x, i),
            None => forall|j: int| 0 <= j < s.len() ==> s[j] != x,
        },
{
    if exists|i: int| is_first_index(s, x, i) {
    } else {
        assert forall|j: int| 0 <= j < s.len() implies s[j] != x by {
            if s[j] == x {
                lemma_some_first(s, x, j);
            }
        }
    }
}

/// Below any occurrence there is a least one.
proof fn lemma_some_first<T>(s: Seq<T>, x: T, j: int)
    requires
        0 <= j < s.len(),
        s[j] == x,
    ensures
        exists|i: int| is_first_index(s, x, i),
    decreases j,
{
    if forall|k: int| 0 <= k < j ==> s[k] != x {
        assert(is_first_index(s, x, j));
    } else {
        let k = choose|k: int| 0 <= k < j && s[k] == x;
        lemma_some_first(s, x, k);
    }
}

} // verus!
