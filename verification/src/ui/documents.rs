//! Helpers of the document views.
use vstd::prelude::*;

verus! {

/// The number of `false` entries (documents not hidden by the filter).
pub open spec fn count_shown(suppressed: Seq<bool>) -> nat
    decreases suppressed.len(),
{
    if suppressed.len() == 0 {
        0
    } else {
        count_shown(suppressed.drop_last()) + if suppressed.last() { 0nat } else { 1nat }
    }
}

/// The number of documents that the filter does not hide.
pub fn visible_documents(suppressed: &Vec<bool>) -> (n: usize)
    ensures
        n == count_shown(suppressed@),
{
    let mut n: usize = 0;
    let mut i: usize = 0;
    while i < suppressed.len()
        invariant
            i <= suppressed@.len(),
            n == count_shown(suppressed@.take(i as int)),
            n <= i,
        decreases suppressed@.len() - i,
    {
        assert(suppressed@.take(i + 1).drop_last() =~= suppressed@.take(i as int));
        if !suppressed[i] {
            n = n + 1;
        }
        i = i + 1;
    }
    assert(suppressed@.take(suppressed@.len() as int) =~= suppressed@);
    n
}

} // verus!
