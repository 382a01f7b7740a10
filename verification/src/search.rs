//! First-match lookup over sequences: the index of the first element
//! satisfying a predicate, with the lemmas that connect it to linear
//! scans.

use vstd::prelude::*;

verus! {

/// The index of the first element of `s` satisfying `p`, or `-1` when no
/// element does.
pub open spec fn first_idx<T>(s: Seq<T>, p: spec_fn(T) -> bool) -> int
    decreases s.len(),
{
    if s.len() == 0 {
        -1
    } else if p(s[0]) {
        0
    } else {
        let r = first_idx(s.drop_first(), p);
        if r < 0 {
            -1
        } else {
            r + 1
        }
    }
}

/// `first_idx` is in range, lands on a matching element, and nothing
/// before it matches; `-1` means nothing matches at all.
pub proof fn lemma_first_idx<T>(s: Seq<T>, p: spec_fn(T) -> bool)
    ensures
        -1 <= first_idx(s, p) < s.len(),
        first_idx(s, p) >= 0 ==> p(s[first_idx(s, p)]),
        forall|j: int| 0 <= j < first_idx(s, p) ==> !p(s[j]),
        first_idx(s, p) == -1 ==> forall|j: int| 0 <= j < s.len() ==> !p(s[j]),
    decreases s.len(),
{
    if s.len() > 0 && !p(s[0]) {
        lemma_first_idx(s.drop_first(), p);
        assert forall|j: int| 0 <= j < first_idx(s, p) implies !p(s[j]) by {
            if j > 0 {
                assert(s.drop_first()[j - 1] == s[j]);
            }
        }
        if first_idx(s, p) == -1 {
            assert forall|j: int| 0 <= j < s.len() implies !p(s[j]) by {
                if j > 0 {
                    assert(s.drop_first()[j - 1] == s[j]);
                }
            }
        }
    }
}

/// A position that matches, with no match before it, is exactly
/// `first_idx`.
pub proof fn lemma_first_idx_of<T>(s: Seq<T>, p: spec_fn(T) -> bool, i: int)
    requires
        0 <= i < s.len(),
        p(s[i]),
        forall|j: int| 0 <= j < i ==> !p(s[j]),
    ensures
        first_idx(s, p) == i,
    decreases s.len(),
{
    if i > 0 {
        lemma_first_idx_of(s.drop_first(), p, i - 1);
        assert(forall|j: int| 0 <= j < s.drop_first().len() ==> s.drop_first()[j] == s[j + 1]);
    }
}

/// A scan that found no match over the whole sequence pins `first_idx`
/// to `-1`.
pub proof fn lemma_first_idx_none<T>(s: Seq<T>, p: spec_fn(T) -> bool)
    requires
        forall|j: int| 0 <= j < s.len() ==> !p(s[j]),
    ensures
        first_idx(s, p) == -1,
    decreases s.len(),
{
    if s.len() > 0 {
        lemma_first_idx_none(s.drop_first(), p);
        assert(forall|j: int| 0 <= j < s.drop_first().len() ==> s.drop_first()[j] == s[j + 1]);
    }
}

} // verus!
