//! Facts about sequences that the proofs of several modules share.

use vstd::prelude::*;

verus! {

/// Filtering a sequence that was extended by one item filters the sequence
/// and then keeps or drops the item.
pub proof fn lemma_filter_push<A>(s: Seq<A>, x: A, pred: spec_fn(A) -> bool)
    ensures
        s.push(x).filter(pred) == if pred(x) {
            s.filter(pred).push(x)
        } else {
            s.filter(pred)
        },
{
    reveal(Seq::filter);
    assert(s.push(x).drop_last() =~= s);
}

} // verus!
