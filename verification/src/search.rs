//! Spec-level helpers for searching and filtering sequences.
//!
//! The store's operations all reduce to "the first row matching a predicate"
//! or "all rows matching a predicate, in order"; these functions give those
//! phrases a single definition that both the transition functions and the
//! executable loops are proved against.

use vstd::prelude::*;

verus! {

/// Index of the first element of `s` satisfying `p`, or `-1` if none does.
pub open spec fn first_match_idx<T>(s: Seq<T>, p: spec_fn(T) -> bool) -> int
    decreases s.len(),
{
    if s.len() == 0 {
        -1
    } else if p(s[0]) {
        0
    } else {
        let r = first_match_idx(s.drop_first(), p);
        if r < 0 {
            -1
        } else {
            r + 1
        }
    }
}

/// What `first_match_idx` returns: either `-1` and nothing matches, or a
/// valid index whose element matches while no earlier one does.
pub proof fn lemma_first_match_idx<T>(s: Seq<T>, p: spec_fn(T) -> bool)
    ensures
        first_match_idx(s, p) == -1 ==> forall|j: int| 0 <= j < s.len() ==> !p(#[trigger] s[j]),
        first_match_idx(s, p) != -1 ==> 0 <= first_match_idx(s, p) < s.len(),
        first_match_idx(s, p) != -1 ==> p(s[first_match_idx(s, p)]),
        first_match_idx(s, p) != -1 ==> forall|j: int|
            0 <= j < first_match_idx(s, p) ==> !p(#[trigger] s[j]),
    decreases s.len(),
{
    if s.len() != 0 && !p(s[0]) {
        lemma_first_match_idx(s.drop_first(), p);
        assert forall|j: int| 0 < j < s.len() implies #[trigger] s[j] == s.drop_first()[j - 1] by {}
    }
}

/// Converse direction: an index that matches with no earlier match is the
/// first match.
pub proof fn lemma_first_match_idx_at<T>(s: Seq<T>, p: spec_fn(T) -> bool, i: int)
    requires
        0 <= i < s.len(),
        p(s[i]),
        forall|j: int| 0 <= j < i ==> !p(#[trigger] s[j]),
    ensures
        first_match_idx(s, p) == i,
    decreases s.len(),
{
    if i > 0 {
        assert forall|j: int| 0 < j < s.len() implies #[trigger] s[j] == s.drop_first()[j - 1] by {}
        lemma_first_match_idx_at(s.drop_first(), p, i - 1);
    }
}

/// When nothing matches, the first-match index is `-1`.
pub proof fn lemma_first_match_idx_none<T>(s: Seq<T>, p: spec_fn(T) -> bool)
    requires
        forall|j: int| 0 <= j < s.len() ==> !p(#[trigger] s[j]),
    ensures
        first_match_idx(s, p) == -1,
    decreases s.len(),
{
    if s.len() != 0 {
        assert forall|j: int| 0 <= j < s.drop_first().len() implies !p(#[trigger] s.drop_first()[j]) by {
            assert(s.drop_first()[j] == s[j + 1]);
        }
        lemma_first_match_idx_none(s.drop_first(), p);
    }
}

/// The elements among the first `n` of `s` that satisfy `p`, in order.
pub open spec fn filter_prefix<T>(s: Seq<T>, p: spec_fn(T) -> bool, n: int) -> Seq<T>
    decreases n,
{
    if n <= 0 {
        Seq::empty()
    } else {
        let pre = filter_prefix(s, p, n - 1);
        if p(s[n - 1]) {
            pre.push(s[n - 1])
        } else {
            pre
        }
    }
}

/// All elements of `s` satisfying `p`, in order.
pub open spec fn filtered<T>(s: Seq<T>, p: spec_fn(T) -> bool) -> Seq<T> {
    filter_prefix(s, p, s.len() as int)
}

} // verus!
