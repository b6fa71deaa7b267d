//! Plain selection sort, the fault-free reference for the hardened variant.

use super::swap_plain;
use crate::specs::sorted;
use vstd::prelude::*;

verus! {

/// Sorts the vector in non-decreasing order by repeatedly moving the
/// minimum of the unsorted suffix to its front.
pub fn selection_sort(vet: Vec<i32>) -> (r: Vec<i32>)
    requires
        vet@.len() >= 1,
    ensures
        sorted(r@),
        r@.to_multiset() == vet@.to_multiset(),
        r@.len() == vet@.len(),
{
    let mut vet = vet;
    let ghost orig = vet@;
    let n: usize = vet.len();
    let mut i: usize = 0;
    while i < n - 1
        invariant
            n == vet@.len(),
            n >= 1,
            i < n,
            vet@.to_multiset() == orig.to_multiset(),
            sorted(vet@.subrange(0, i as int)),
            forall|p: int, q: int| 0 <= p < i && i <= q < n ==> vet@[p] <= vet@[q],
        decreases n - 1 - i,
    {
        let mut min: usize = i;
        let mut j: usize = i + 1;
        while j < n
            invariant
                n == vet@.len(),
                i < n,
                i + 1 <= j <= n,
                i <= min < j,
                forall|k: int| i <= k < j ==> vet@[min as int] <= #[trigger] vet@[k],
                vet@.to_multiset() == orig.to_multiset(),
                sorted(vet@.subrange(0, i as int)),
                forall|p: int, q: int| 0 <= p < i && i <= q < n ==> vet@[p] <= vet@[q],
            decreases n - j,
        {
            if vet[j] < vet[min] {
                min = j;
            }
            j += 1;
        }
        let ghost before = vet@;
        swap_plain(&mut vet, min, i);
        proof {
            assert forall|p: int, q: int| 0 <= p < q < i as int + 1 implies vet@[p] <= vet@[q] by {
                assert(before.subrange(0, i as int)[p] == before[p]);
                if q < i as int {
                    assert(before.subrange(0, i as int)[q] == before[q]);
                }
            }
            assert(sorted(vet@.subrange(0, i as int + 1))) by {
                assert(forall|k: int|
                    0 <= k < i as int + 1 ==> vet@.subrange(0, i as int + 1)[k] == vet@[k]);
            }
        }
        i += 1;
    }
    proof {
        assert forall|p: int, q: int| 0 <= p < q < vet@.len() implies vet@[p] <= vet@[q] by {
            if q < i as int {
                assert(vet@.subrange(0, i as int)[p] == vet@[p]);
                assert(vet@.subrange(0, i as int)[q] == vet@[q]);
            }
        }
    }
    vet
}

} // verus!
