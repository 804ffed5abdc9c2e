//! Index-stable reordering of per-particle buffers.

use vstd::prelude::*;
use crate::spatial_hash::Entry;

verus! {

/// Every entry names a position below `len`.
pub open spec fn indices_within(order: Seq<Entry>, len: nat) -> bool {
    forall|k: int| 0 <= k < order.len() ==> (#[trigger] order[k]).index < len
}

/// The buffer `values` taken in the order that `order` gives: position `k`
/// holds the value of the particle that entry `k` names.
pub open spec fn spec_reordered<T>(values: Seq<T>, order: Seq<Entry>) -> Seq<T> {
    Seq::new(order.len(), |k: int| values[order[k].index as int])
}

/// Copies a per-particle buffer into the order of the sorted entries.
///
/// Every buffer of a particle set is reordered with the same entries, so that
/// position `k` of each of them speaks of the same particle afterwards.
pub fn reorder_data<T: Copy>(values: &[T], order: &[Entry]) -> (out: Vec<T>)
    requires
        indices_within(order@, values@.len()),
    ensures
        out@ == spec_reordered(values@, order@),
{
    let n: usize = order.len();
    let mut out: Vec<T> = Vec::with_capacity(n);
    let mut k: usize = 0;
    while k < n
        invariant
            n == order@.len(),
            k <= n,
            indices_within(order@, values@.len()),
            out@ == spec_reordered(values@, order@).take(k as int),
        decreases n - k,
    {
        let source: usize = order[k].index as usize;
        out.push(values[source]);
        assert(out@ =~= spec_reordered(values@, order@).take(k + 1));
        k = k + 1;
    }
    assert(out@ =~= spec_reordered(values@, order@));
    out
}

/// Two buffers reordered with the same entries stay paired: what stood
/// together at one particle stands together at one position afterwards.
pub proof fn lemma_reorder_keeps_pairs<A, B>(first: Seq<A>, second: Seq<B>, order: Seq<Entry>, k: int)
    requires
        first.len() == second.len(),
        indices_within(order, first.len()),
        0 <= k < order.len(),
    ensures
        exists|i: int|
            0 <= i < first.len() && #[trigger] first[i] == spec_reordered(first, order)[k]
                && second[i] == spec_reordered(second, order)[k],
{
    let i = order[k].index as int;
    assert(first[i] == spec_reordered(first, order)[k]);
}

} // verus!
