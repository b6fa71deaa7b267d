//! Plain bubble sort, the fault-free reference for the hardened variant.

use super::swap_plain;
use crate::specs::{lemma_sorted_from_adjacent, sorted};
use vstd::prelude::*;

verus! {

/// Sorts the vector in non-decreasing order by bubbling the largest element
/// of the unsorted prefix to its end, stopping early once a pass makes no
/// swap.
pub fn bubble_sort(vet: Vec<i32>) -> (r: Vec<i32>)
    ensures
        sorted(r@),
        r@.to_multiset() == vet@.to_multiset(),
        r@.len() == vet@.len(),
{
    let mut vet = vet;
    let ghost orig = vet@;
    let n: usize = vet.len();
    let mut i: usize = 0;
    while i < n
        invariant_except_break
            n == vet@.len(),
            i <= n,
            vet@.to_multiset() == orig.to_multiset(),
            sorted(vet@.subrange(n - i, n as int)),
            forall|p: int, q: int| 0 <= p < n - i && n - i <= q < n ==> vet@[p] <= vet@[q],
            i == n ==> sorted(vet@),
        ensures
            n == vet@.len(),
            vet@.to_multiset() == orig.to_multiset(),
            sorted(vet@),
        decreases n - i,
    {
        let mut swapped = false;
        let mut j: usize = 0;
        while j < n - i - 1
            invariant
                n == vet@.len(),
                i < n,
                j <= n - i - 1,
                vet@.to_multiset() == orig.to_multiset(),
                sorted(vet@.subrange(n - i, n as int)),
                forall|p: int, q: int| 0 <= p < n - i && n - i <= q < n ==> vet@[p] <= vet@[q],
                forall|k: int| 0 <= k < j ==> vet@[k] <= vet@[j as int],
                !swapped ==> forall|k: int| 0 <= k < j ==> #[trigger] vet@[k] <= vet@[k + 1],
            decreases n - i - 1 - j,
        {
            if vet[j] > vet[j + 1] {
                let ghost before = vet@;
                swap_plain(&mut vet, j, j + 1);
                swapped = true;
                proof {
                    assert(vet@.subrange(n - i, n as int) =~= before.subrange(n - i, n as int));
                }
            }
            j += 1;
        }
        proof {
            // The pass has carried the maximum of the prefix to its end, so
            // the sorted tail grows by one.
            assert forall|p: int, q: int| n - i - 1 <= p < q < n implies vet@[p] <= vet@[q] by {
                if p > n - i - 1 {
                    assert(vet@.subrange(n - i, n as int)[p - (n - i)] == vet@[p]);
                    assert(vet@.subrange(n - i, n as int)[q - (n - i)] == vet@[q]);
                }
            }
            assert(sorted(vet@.subrange(n - i - 1, n as int))) by {
                assert(forall|k: int|
                    0 <= k <= i as int ==> #[trigger] vet@.subrange(n - i - 1, n as int)[k]
                        == vet@[k + n - i - 1]);
            }
        }
        if !swapped {
            proof {
                assert forall|k: int| 0 <= k < vet@.len() - 1 implies #[trigger] vet@[k] <= vet@[
                    k + 1
                ] by {
                    if k >= n - i {
                        assert(vet@.subrange(n - i, n as int)[k - (n - i)] == vet@[k]);
                        assert(vet@.subrange(n - i, n as int)[k + 1 - (n - i)] == vet@[k + 1]);
                    }
                }
                lemma_sorted_from_adjacent(vet@);
            }
            break ;
        }
        i += 1;
        proof {
            if i == n {
                assert(vet@.subrange(0, n as int) =~= vet@);
            }
        }
    }
    vet
}

} // verus!
