//! Facts about strictly ascending sequences of ordinals.
//!
//! Both sub-controllers keep their open-ordinal lists and registration tables
//! in strictly ascending order; these lemmas bound the length of such a
//! sequence by the range its elements lie in.

use vstd::prelude::*;

verus! {

/// Each element is strictly smaller than every later one.
pub open spec fn strictly_ascending(s: Seq<u64>) -> bool {
    forall|i: int, j: int| 0 <= i < j < s.len() ==> s[i] < s[j]
}

/// In a strictly ascending sequence, an element is at least its distance from
/// an earlier element larger than that element.
pub proof fn lemma_ascending_gap(s: Seq<u64>, i: int, j: int)
    requires
        strictly_ascending(s),
        0 <= i <= j < s.len(),
    ensures
        s[j] >= s[i] + (j - i),
    decreases j - i,
{
    if i < j {
        lemma_ascending_gap(s, i, j - 1);
    }
}

/// A strictly ascending sequence whose elements all lie in `[0, bound]` has
/// at most `bound + 1` elements.
pub proof fn lemma_ascending_len_bounded(s: Seq<u64>, bound: u64)
    requires
        strictly_ascending(s),
        forall|i: int| 0 <= i < s.len() ==> s[i] <= bound,
    ensures
        s.len() <= bound + 1,
{
    if s.len() > 0 {
        lemma_ascending_gap(s, 0, s.len() - 1);
    }
}

/// Removing one occurrence of a value from a strictly ascending sequence
/// leaves exactly the other values: ascending order admits no duplicate.
pub proof fn lemma_remove_unique_element(s: Seq<u64>, i: int, x: u64)
    requires
        strictly_ascending(s),
        0 <= i < s.len(),
    ensures
        s.remove(i).contains(x) <==> s.contains(x) && x != s[i],
{
    let t = s.remove(i);
    if t.contains(x) {
        let w = choose|w: int| 0 <= w < t.len() && t[w] == x;
        if w < i {
            assert(s[w] == x);
        } else {
            assert(s[w + 1] == x);
        }
    }
    if s.contains(x) && x != s[i] {
        let w = choose|w: int| 0 <= w < s.len() && s[w] == x;
        if w < i {
            assert(t[w] == x);
        } else {
            assert(w > i);
            assert(t[w - 1] == x);
        }
    }
}

} // verus!
