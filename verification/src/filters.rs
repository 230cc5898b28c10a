//! Facts about `Seq::filter` that the report builder's proofs rest on.

use vstd::prelude::*;

verus! {

/// Filtering a sequence that ends in `x` filters what comes before `x` and
/// keeps `x` where the predicate holds of it.
pub proof fn lemma_filter_push<A>(s: Seq<A>, x: A, pred: spec_fn(A) -> bool)
    ensures
        s.push(x).filter(pred) == if pred(x) {
            s.filter(pred).push(x)
        } else {
            s.filter(pred)
        },
{
    reveal(Seq::filter);
    assert(s.push(x).drop_last() =~= s);
}

/// Filtering the empty sequence leaves it empty.
pub proof fn lemma_filter_empty<A>(pred: spec_fn(A) -> bool)
    ensures
        Seq::<A>::empty().filter(pred) == Seq::<A>::empty(),
{
    reveal(Seq::filter);
}

/// Two predicates that agree on the elements of `s` filter it alike.
pub proof fn lemma_filter_agree<A>(s: Seq<A>, p: spec_fn(A) -> bool, q: spec_fn(A) -> bool)
    requires
        forall|i: int| 0 <= i < s.len() ==> p(#[trigger] s[i]) == q(s[i]),
    ensures
        s.filter(p) == s.filter(q),
    decreases s.len(),
{
    reveal(Seq::filter);
    if s.len() > 0 {
        let front = s.drop_last();
        assert forall|i: int| 0 <= i < front.len() implies p(#[trigger] front[i]) == q(
            front[i],
        ) by {
            assert(front[i] == s[i]);
        }
        lemma_filter_agree(front, p, q);
    }
}

/// Filtering twice is filtering once by both predicates.
pub proof fn lemma_filter_twice<A>(s: Seq<A>, p: spec_fn(A) -> bool, q: spec_fn(A) -> bool)
    ensures
        s.filter(p).filter(q) == s.filter(|x: A| p(x) && q(x)),
    decreases s.len(),
{
    let both = |x: A| p(x) && q(x);
    if s.len() == 0 {
        assert(s =~= Seq::<A>::empty());
    } else {
        let front = s.drop_last();
        let x = s.last();
        assert(s =~= front.push(x));
        lemma_filter_twice(front, p, q);
        lemma_filter_push(front, x, p);
        lemma_filter_push(front, x, both);
        if p(x) {
            lemma_filter_push(front.filter(p), x, q);
        }
    }
}

/// A predicate and its negation split a sequence: the two parts have all of
/// its elements between them.
pub proof fn lemma_filter_split<A>(s: Seq<A>, p: spec_fn(A) -> bool)
    ensures
        s.filter(p).len() + s.filter(|x: A| !p(x)).len() == s.len(),
    decreases s.len(),
{
    let not_p = |x: A| !p(x);
    if s.len() == 0 {
        assert(s =~= Seq::<A>::empty());
    } else {
        let front = s.drop_last();
        let x = s.last();
        assert(s =~= front.push(x));
        lemma_filter_split(front, p);
        lemma_filter_push(front, x, p);
        lemma_filter_push(front, x, not_p);
    }
}

/// A predicate that holds of every element keeps them all.
pub proof fn lemma_filter_all<A>(s: Seq<A>, pred: spec_fn(A) -> bool)
    requires
        forall|i: int| 0 <= i < s.len() ==> pred(#[trigger] s[i]),
    ensures
        s.filter(pred) == s,
    decreases s.len(),
{
    if s.len() == 0 {
        assert(s =~= Seq::<A>::empty());
    } else {
        let front = s.drop_last();
        assert(s =~= front.push(s.last()));
        assert forall|i: int| 0 <= i < front.len() implies pred(#[trigger] front[i]) by {
            assert(front[i] == s[i]);
        }
        lemma_filter_all(front, pred);
        lemma_filter_push(front, s.last(), pred);
    }
}

/// A predicate that holds of no element keeps none.
pub proof fn lemma_filter_none<A>(s: Seq<A>, pred: spec_fn(A) -> bool)
    requires
        forall|i: int| 0 <= i < s.len() ==> !pred(#[trigger] s[i]),
    ensures
        s.filter(pred) == Seq::<A>::empty(),
    decreases s.len(),
{
    if s.len() == 0 {
        assert(s =~= Seq::<A>::empty());
    } else {
        let front = s.drop_last();
        assert(s =~= front.push(s.last()));
        assert forall|i: int| 0 <= i < front.len() implies !pred(#[trigger] front[i]) by {
            assert(front[i] == s[i]);
        }
        lemma_filter_none(front, pred);
        lemma_filter_push(front, s.last(), pred);
    }
}

/// An element is in the filtered sequence exactly where it is in the
/// sequence and the predicate holds of it.
pub proof fn lemma_filter_member<A>(s: Seq<A>, pred: spec_fn(A) -> bool, x: A)
    ensures
        s.filter(pred).contains(x) <==> s.contains(x) && pred(x),
    decreases s.len(),
{
    if s.len() == 0 {
        lemma_filter_empty(pred);
        assert(s =~= Seq::<A>::empty());
    } else {
        let front = s.drop_last();
        let last = s.last();
        assert(s =~= front.push(last));
        lemma_filter_member(front, pred, x);
        lemma_filter_push(front, last, pred);
        if s.filter(pred).contains(x) {
            let i = choose|i: int| 0 <= i < s.filter(pred).len() && s.filter(pred)[i] == x;
            if pred(last) && i == front.filter(pred).len() {
                assert(s[s.len() - 1] == x);
            } else {
                assert(front.filter(pred)[i] == x);
                let j = choose|j: int| 0 <= j < front.len() && front[j] == x;
                assert(s[j] == x);
            }
        }
        if s.contains(x) && pred(x) {
            let j = choose|j: int| 0 <= j < s.len() && s[j] == x;
            if j == s.len() - 1 {
                assert(s.filter(pred)[front.filter(pred).len() as int] == x);
            } else {
                assert(front[j] == x);
                let i = choose|i: int|
                    0 <= i < front.filter(pred).len() && front.filter(pred)[i] == x;
                assert(s.filter(pred)[i] == x);
            }
        }
    }
}

} // verus!
