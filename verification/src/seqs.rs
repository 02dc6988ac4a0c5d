use vstd::prelude::*;

verus! {

/// Filtering a sequence extended by one element keeps the filtered prefix and
/// appends the element exactly when it satisfies the predicate.
pub proof fn lemma_filter_push<A>(s: Seq<A>, x: A, pred: spec_fn(A) -> bool)
    ensures
        pred(x) ==> s.push(x).filter(pred) == s.filter(pred).push(x),
        !pred(x) ==> s.push(x).filter(pred) == s.filter(pred),
{
    reveal(Seq::filter);
    assert(s.push(x).drop_last() =~= s);
    assert(s.push(x).last() == x);
}

/// Filtering a concatenation filters each part.
pub proof fn lemma_filter_add<A>(a: Seq<A>, b: Seq<A>, pred: spec_fn(A) -> bool)
    ensures
        (a + b).filter(pred) == a.filter(pred) + b.filter(pred),
{
    Seq::filter_distributes_over_add(a, b, pred);
}

/// A sequence none of whose elements satisfies the predicate filters to empty.
pub proof fn lemma_filter_none<A>(s: Seq<A>, pred: spec_fn(A) -> bool)
    requires
        forall|i: int| 0 <= i < s.len() ==> !pred(s[i]),
    ensures
        s.filter(pred) == Seq::<A>::empty(),
    decreases s.len(),
{
    reveal(Seq::filter);
    if s.len() > 0 {
        lemma_filter_none(s.drop_last(), pred);
    }
}

/// A sequence all of whose elements satisfy the predicate filters to itself.
pub proof fn lemma_filter_all<A>(s: Seq<A>, pred: spec_fn(A) -> bool)
    requires
        forall|i: int| 0 <= i < s.len() ==> pred(s[i]),
    ensures
        s.filter(pred) == s,
    decreases s.len(),
{
    reveal(Seq::filter);
    if s.len() > 0 {
        lemma_filter_all(s.drop_last(), pred);
        assert(s.drop_last().push(s.last()) =~= s);
    }
}

} // verus!
