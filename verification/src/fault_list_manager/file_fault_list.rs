//! The three target programs in their plain (not hardened) form.  These are
//! the fault-free references: the aggregator compares the output of a silent
//! trial against what these compute on the same input.

pub mod bubble_sort;
pub mod matrix_multiplication;
pub mod selection_sort;

use vstd::prelude::*;

verus! {

/// Swaps two elements of a plain vector.
pub(crate) fn swap_plain(v: &mut Vec<i32>, a: usize, b: usize)
    requires
        a < old(v)@.len(),
        b < old(v)@.len(),
    ensures
        final(v)@ == old(v)@.update(a as int, old(v)@[b as int]).update(
            b as int,
            old(v)@[a as int],
        ),
        final(v)@.to_multiset() == old(v)@.to_multiset(),
        final(v)@.len() == old(v)@.len(),
{
    let va = v[a];
    let vb = v[b];
    v[a] = vb;
    v[b] = va;
    proof {
        crate::specs::lemma_swap_multiset(old(v)@, a as int, b as int);
    }
}

} // verus!
