//! A fact about sequences that the loops of this library lean on.

use vstd::prelude::*;

verus! {

/// Filtering a sequence grown by one element: the element is kept at the
/// end where it passes the test, and dropped where it does not.
pub proof fn lemma_filter_push<A>(s: Seq<A>, x: A, pred: spec_fn(A) -> bool)
    ensures
        s.push(x).filter(pred) == if pred(x) {
            s.filter(pred).push(x)
        } else {
            s.filter(pred)
        },
{
    reveal(Seq::filter);
    assert(s.push(x).drop_last() =~= s);
}

} // verus!
