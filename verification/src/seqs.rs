//! Small general facts about filtered sequences that the store's
//! invariant proofs lean on: filtering keeps every per-element property
//! and every pairwise property of the original sequence.

use vstd::prelude::*;

verus! {

/// Every element of a filtered sequence is an element of the original,
/// so a property that held of every element still holds.
pub proof fn lemma_filter_preserves_all<A>(s: Seq<A>, p: spec_fn(A) -> bool, q: spec_fn(A) -> bool)
    requires
        forall|i: int| 0 <= i < s.len() ==> q(#[trigger] s[i]),
    ensures
        forall|i: int| 0 <= i < s.filter(p).len() ==> q(#[trigger] s.filter(p)[i]),
    decreases s.len(),
{
    reveal(Seq::filter);
    if s.len() > 0 {
        let rest = s.drop_last();
        assert(forall|i: int| 0 <= i < rest.len() ==> q(#[trigger] rest[i]));
        lemma_filter_preserves_all(rest, p, q);
        if p(s.last()) {
            assert(s.filter(p) == rest.filter(p).push(s.last()));
            assert(q(s.last()));
        }
    }
}

/// A pairwise property of the original sequence (taken in positional
/// order) still holds pairwise in the filtered sequence, because
/// filtering keeps the order.
pub proof fn lemma_filter_preserves_pairwise<A>(
    s: Seq<A>,
    p: spec_fn(A) -> bool,
    r: spec_fn(A, A) -> bool,
)
    requires
        forall|i: int, j: int| 0 <= i < j < s.len() ==> r(#[trigger] s[i], #[trigger] s[j]),
    ensures
        forall|i: int, j: int|
            0 <= i < j < s.filter(p).len() ==> r(
                #[trigger] s.filter(p)[i],
                #[trigger] s.filter(p)[j],
            ),
    decreases s.len(),
{
    reveal(Seq::filter);
    if s.len() > 0 {
        let rest = s.drop_last();
        assert(forall|i: int, j: int|
            0 <= i < j < rest.len() ==> r(#[trigger] rest[i], #[trigger] rest[j]));
        lemma_filter_preserves_pairwise(rest, p, r);
        if p(s.last()) {
            let out = rest.filter(p).push(s.last());
            assert(s.filter(p) == out);
            assert forall|i: int, j: int| 0 <= i < j < out.len() implies r(
                #[trigger] out[i],
                #[trigger] out[j],
            ) by {
                if j < out.len() - 1 {
                    assert(out[i] == rest.filter(p)[i] && out[j] == rest.filter(p)[j]);
                } else {
                    assert(out[j] == s.last());
                    assert(rest.filter(p).contains(rest.filter(p)[i]));
                    rest.lemma_filter_contains_rev(p, rest.filter(p)[i]);
                    let k = choose|k: int| 0 <= k < rest.len() && rest[k] == rest.filter(p)[i];
                    assert(r(s[k], s[s.len() - 1]));
                }
            }
        }
    }
}


/// Filtering keeps exactly the elements that satisfy the predicate, so
/// a sequence whose elements all satisfy it is left untouched.
pub proof fn lemma_filter_all_true<A>(s: Seq<A>, p: spec_fn(A) -> bool)
    requires
        forall|i: int| 0 <= i < s.len() ==> p(#[trigger] s[i]),
    ensures
        s.filter(p) == s,
    decreases s.len(),
{
    reveal(Seq::filter);
    if s.len() > 0 {
        let rest = s.drop_last();
        assert(forall|i: int| 0 <= i < rest.len() ==> p(#[trigger] rest[i]));
        lemma_filter_all_true(rest, p);
        assert(p(s.last()));
        assert(s.filter(p) =~= s);
    } else {
        assert(s.filter(p) =~= s);
    }
}

/// Filtering twice with one predicate is the same as filtering once.
pub proof fn lemma_filter_idempotent<A>(s: Seq<A>, p: spec_fn(A) -> bool)
    ensures
        s.filter(p).filter(p) == s.filter(p),
{
    assert forall|i: int| 0 <= i < s.filter(p).len() implies p(#[trigger] s.filter(p)[i]) by {
        s.lemma_filter_pred(p, i);
    }
    lemma_filter_all_true(s.filter(p), p);
}

} // verus!
