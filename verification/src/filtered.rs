use vstd::prelude::*;

verus! {

/// Each item that a filter keeps stands somewhere in the sequence.
pub proof fn lemma_filter_source<A>(s: Seq<A>, pred: spec_fn(A) -> bool, k: int) -> (i: int)
    requires
        0 <= k < s.filter(pred).len(),
    ensures
        0 <= i < s.len(),
        s[i] == s.filter(pred)[k],
        pred(s[i]),
    decreases s.len(),
{
    reveal(Seq::filter);
    let rest = s.drop_last();
    if pred(s.last()) && k == rest.filter(pred).len() {
        s.len() - 1
    } else {
        lemma_filter_source(rest, pred, k)
    }
}

/// A filter keeps the order: of two items that it keeps, the earlier one
/// stands earlier in the sequence too.
pub proof fn lemma_filter_order<A>(s: Seq<A>, pred: spec_fn(A) -> bool, k1: int, k2: int) -> (places: (int, int))
    requires
        0 <= k1 < k2 < s.filter(pred).len(),
    ensures
        0 <= places.0 < places.1 < s.len(),
        s[places.0] == s.filter(pred)[k1],
        s[places.1] == s.filter(pred)[k2],
    decreases s.len(),
{
    reveal(Seq::filter);
    let rest = s.drop_last();
    if pred(s.last()) && k2 == rest.filter(pred).len() {
        let i1 = lemma_filter_source(rest, pred, k1);
        (i1, s.len() - 1)
    } else {
        lemma_filter_order(rest, pred, k1, k2)
    }
}

/// A filter keeps every item that meets the condition.
pub proof fn lemma_filter_keeps<A>(s: Seq<A>, pred: spec_fn(A) -> bool, i: int) -> (k: int)
    requires
        0 <= i < s.len(),
        pred(s[i]),
    ensures
        0 <= k < s.filter(pred).len(),
        s.filter(pred)[k] == s[i],
    decreases s.len(),
{
    reveal(Seq::filter);
    let rest = s.drop_last();
    if i == s.len() - 1 {
        rest.filter(pred).len() as int
    } else {
        lemma_filter_keeps(rest, pred, i)
    }
}

} // verus!
