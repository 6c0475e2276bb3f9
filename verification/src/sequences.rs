//! Facts about filtered sequences.

use vstd::prelude::*;

verus! {

/// One more element of a sequence is filtered by keeping or dropping it.
pub proof fn lemma_filter_step<A>(s: Seq<A>, pred: spec_fn(A) -> bool, k: int)
    requires
        0 <= k < s.len(),
    ensures
        s.take(k + 1).filter(pred) == if pred(s[k]) {
            s.take(k).filter(pred).push(s[k])
        } else {
            s.take(k).filter(pred)
        },
{
    reveal(Seq::filter);
    assert(s.take(k + 1).drop_last() =~= s.take(k));
}

/// The position in `s` of the element that stands at position `j` of
/// `s.filter(pred)`.
pub open spec fn filter_source<A>(s: Seq<A>, pred: spec_fn(A) -> bool, j: int) -> int
    decreases s.len(),
{
    if s.len() == 0 {
        0
    } else if pred(s.last()) && j == s.drop_last().filter(pred).len() {
        s.len() - 1
    } else {
        filter_source(s.drop_last(), pred, j)
    }
}

/// A filtered sequence holds exactly the elements that meet the predicate, in
/// their order.
pub proof fn lemma_filter_keeps_order<A>(s: Seq<A>, pred: spec_fn(A) -> bool)
    ensures
        s.filter(pred).len() <= s.len(),
        forall|j: int|
            0 <= j < s.filter(pred).len() ==> {
                &&& 0 <= #[trigger] filter_source(s, pred, j) < s.len()
                &&& s[filter_source(s, pred, j)] == s.filter(pred)[j]
                &&& pred(s.filter(pred)[j])
            },
        forall|j1: int, j2: int|
            0 <= j1 < j2 < s.filter(pred).len() ==> #[trigger] filter_source(s, pred, j1)
                < #[trigger] filter_source(s, pred, j2),
        forall|i: int|
            0 <= i < s.len() && pred(#[trigger] s[i]) ==> exists|j: int|
                0 <= j < s.filter(pred).len() && filter_source(s, pred, j) == i,
    decreases s.len(),
{
    reveal(Seq::filter);
    if s.len() > 0 {
        let t = s.drop_last();
        lemma_filter_keeps_order(t, pred);
        let f = s.filter(pred);
        let n = t.filter(pred).len() as int;
        assert forall|j: int| 0 <= j < f.len() implies {
            &&& 0 <= #[trigger] filter_source(s, pred, j) < s.len()
            &&& s[filter_source(s, pred, j)] == f[j]
            &&& pred(f[j])
        } by {
            if j < n {
                assert(0 <= filter_source(t, pred, j) < t.len());
            }
        }
        assert forall|j1: int, j2: int| 0 <= j1 < j2 < f.len() implies #[trigger] filter_source(
            s,
            pred,
            j1,
        ) < #[trigger] filter_source(s, pred, j2) by {
            assert(0 <= filter_source(t, pred, j1) < t.len());
            if j2 < n {
                assert(filter_source(s, pred, j2) == filter_source(t, pred, j2));
            }
        }
        assert forall|i: int| 0 <= i < s.len() && pred(#[trigger] s[i]) implies exists|j: int|
            0 <= j < f.len() && filter_source(s, pred, j) == i by {
            if i == s.len() - 1 {
                assert(filter_source(s, pred, n) == i);
            } else {
                assert(t[i] == s[i]);
                let j = choose|j: int| 0 <= j < n && filter_source(t, pred, j) == i;
                assert(filter_source(s, pred, j) == i);
            }
        }
    }
}

/// Filtering keeps a sequence as it is if every element meets the predicate.
pub proof fn lemma_filter_all<A>(s: Seq<A>, pred: spec_fn(A) -> bool)
    requires
        forall|i: int| 0 <= i < s.len() ==> pred(#[trigger] s[i]),
    ensures
        s.filter(pred) == s,
    decreases s.len(),
{
    reveal(Seq::filter);
    if s.len() > 0 {
        let t = s.drop_last();
        lemma_filter_all(t, pred);
    }
}

} // verus!
