//! Small reusable facts about filtered sequences.

use vstd::prelude::*;

verus! {

/// Each element of a filtered sequence is an element of the original.
pub proof fn lemma_filter_members<A>(s: Seq<A>, pred: spec_fn(A) -> bool)
    ensures
        forall|k: int| 0 <= k < s.filter(pred).len() ==> s.contains(#[trigger] s.filter(pred)[k]),
    decreases s.len(),
{
    reveal(Seq::filter);
    if s.len() > 0 {
        let dl = s.drop_last();
        lemma_filter_members(dl, pred);
        assert forall|k: int| 0 <= k < s.filter(pred).len() implies s.contains(
            #[trigger] s.filter(pred)[k],
        ) by {
            if k < dl.filter(pred).len() {
                assert(dl.contains(dl.filter(pred)[k]));
                let j = choose|j: int| 0 <= j < dl.len() && dl[j] == dl.filter(pred)[k];
                assert(s[j] == s.filter(pred)[k]);
            } else {
                assert(s.filter(pred)[k] == s[s.len() - 1]);
            }
        }
    }
}

/// Filtering a sequence whose elements grow pairwise under `lt` leaves a
/// sequence whose elements grow pairwise under `lt`.
pub proof fn lemma_filter_keeps_order<A>(
    s: Seq<A>,
    pred: spec_fn(A) -> bool,
    lt: spec_fn(A, A) -> bool,
)
    requires
        forall|i: int, j: int| 0 <= i < j < s.len() ==> #[trigger] lt(s[i], s[j]),
    ensures
        forall|i: int, j: int|
            0 <= i < j < s.filter(pred).len() ==> #[trigger] lt(
                s.filter(pred)[i],
                s.filter(pred)[j],
            ),
    decreases s.len(),
{
    reveal(Seq::filter);
    if s.len() > 0 {
        let dl = s.drop_last();
        lemma_filter_keeps_order(dl, pred, lt);
        lemma_filter_members(dl, pred);
        assert forall|i: int, j: int| 0 <= i < j < s.filter(pred).len() implies #[trigger] lt(
            s.filter(pred)[i],
            s.filter(pred)[j],
        ) by {
            if j < dl.filter(pred).len() {
                assert(lt(dl.filter(pred)[i], dl.filter(pred)[j]));
            } else {
                assert(s.filter(pred)[j] == s[s.len() - 1]);
                assert(dl.contains(dl.filter(pred)[i]));
                let k = choose|k: int| 0 <= k < dl.len() && dl[k] == dl.filter(pred)[i];
                assert(lt(s[k], s[s.len() - 1]));
            }
        }
    }
}

/// Filtering with a predicate that every element satisfies keeps the
/// sequence as it is.
pub proof fn lemma_filter_all<A>(s: Seq<A>, pred: spec_fn(A) -> bool)
    requires
        forall|i: int| 0 <= i < s.len() ==> pred(#[trigger] s[i]),
    ensures
        s.filter(pred) =~= s,
    decreases s.len(),
{
    reveal(Seq::filter);
    if s.len() > 0 {
        let dl = s.drop_last();
        lemma_filter_all(dl, pred);
        assert(pred(s[s.len() - 1]));
    }
}

} // verus!
