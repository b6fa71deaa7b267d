//! Bubble sort over redundant values, with the early exit of the plain
//! algorithm.  Elements are read through checked indexing and compared
//! through checked reads, so corruption in the data or in a loop variable is
//! caught at its first use.

use crate::hardened::{all_coherent, values_of, vec_read, vec_swap, Hardened, IncoherenceError};
use crate::specs::sorted;
use vstd::prelude::*;

verus! {

/// Sorts a hardened vector in non-decreasing order of its carried values.
///
/// On fully coherent input the sort always succeeds and leaves the vector
/// coherent and sorted; whatever happens, the multiset of pairs (and so the
/// length) is preserved, since elements are only ever swapped.
pub fn bubble_sort(vet: &mut Vec<Hardened<i32>>) -> (r: Result<(), IncoherenceError>)
    ensures
        all_coherent(old(vet)@) ==> r is Ok && all_coherent(final(vet)@) && sorted(
            values_of(final(vet)@),
        ),
        final(vet)@.to_multiset() == old(vet)@.to_multiset(),
        final(vet)@.len() == old(vet)@.len(),
{
    let n: Hardened<usize> = Hardened::from(vet.len());
    let mut i: Hardened<usize> = Hardened::from(0usize);
    loop
        invariant
            n.coherent(),
            n.cp1 == vet@.len(),
            i.coherent(),
            i.cp1 <= n.cp1,
            vet@.len() == old(vet)@.len(),
            vet@.to_multiset() == old(vet)@.to_multiset(),
            all_coherent(old(vet)@) ==> all_coherent(vet@),
            all_coherent(old(vet)@) ==> forall|p: int, q: int|
                n.cp1 - i.cp1 <= p < q < n.cp1 ==> vet@[p].cp1 <= vet@[q].cp1,
            all_coherent(old(vet)@) ==> forall|p: int, q: int|
                0 <= p < n.cp1 - i.cp1 && n.cp1 - i.cp1 <= q < n.cp1 ==> vet@[p].cp1
                    <= vet@[q].cp1,
        ensures
            vet@.len() == old(vet)@.len(),
            vet@.to_multiset() == old(vet)@.to_multiset(),
            all_coherent(old(vet)@) ==> all_coherent(vet@) && forall|p: int, q: int|
                0 <= p < q < vet@.len() ==> vet@[p].cp1 <= vet@[q].cp1,
        decreases n.cp1 - i.cp1,
    {
        let more = i.checked_lt(&n)?;
        if !more {
            break ;
        }
        let mut swapped: Hardened<bool> = Hardened::from(false);
        let mut j: Hardened<usize> = Hardened::from(0usize);
        loop
            invariant
                n.coherent(),
                n.cp1 == vet@.len(),
                i.coherent(),
                i.cp1 < n.cp1,
                j.coherent(),
                swapped.coherent(),
                j.cp1 <= n.cp1 - i.cp1 - 1,
                vet@.len() == old(vet)@.len(),
                vet@.to_multiset() == old(vet)@.to_multiset(),
                all_coherent(old(vet)@) ==> all_coherent(vet@),
                all_coherent(old(vet)@) ==> forall|p: int, q: int|
                    n.cp1 - i.cp1 <= p < q < n.cp1 ==> vet@[p].cp1 <= vet@[q].cp1,
                all_coherent(old(vet)@) ==> forall|p: int, q: int|
                    0 <= p < n.cp1 - i.cp1 && n.cp1 - i.cp1 <= q < n.cp1 ==> vet@[p].cp1
                        <= vet@[q].cp1,
                all_coherent(old(vet)@) ==> forall|k: int|
                    0 <= k < j.cp1 ==> (#[trigger] vet@[k]).cp1 <= vet@[j.cp1 as int].cp1,
                all_coherent(old(vet)@) && !swapped.cp1 ==> forall|k: int|
                    0 <= k < j.cp1 ==> #[trigger] vet@[k].cp1 <= vet@[k + 1].cp1,
            ensures
                n.coherent(),
                n.cp1 == vet@.len(),
                i.coherent(),
                i.cp1 < n.cp1,
                swapped.coherent(),
                j.cp1 == n.cp1 - i.cp1 - 1,
                vet@.len() == old(vet)@.len(),
                vet@.to_multiset() == old(vet)@.to_multiset(),
                all_coherent(old(vet)@) ==> all_coherent(vet@),
                all_coherent(old(vet)@) ==> forall|p: int, q: int|
                    n.cp1 - i.cp1 <= p < q < n.cp1 ==> vet@[p].cp1 <= vet@[q].cp1,
                all_coherent(old(vet)@) ==> forall|p: int, q: int|
                    0 <= p < n.cp1 - i.cp1 && n.cp1 - i.cp1 <= q < n.cp1 ==> vet@[p].cp1
                        <= vet@[q].cp1,
                all_coherent(old(vet)@) ==> forall|k: int|
                    0 <= k < j.cp1 ==> (#[trigger] vet@[k]).cp1 <= vet@[j.cp1 as int].cp1,
                all_coherent(old(vet)@) && !swapped.cp1 ==> forall|k: int|
                    0 <= k < j.cp1 ==> #[trigger] vet@[k].cp1 <= vet@[k + 1].cp1,
            decreases n.cp1 - i.cp1 - 1 - j.cp1,
        {
            let bound = n.sub_hardened(i)?.sub(1)?;
            let more_j = j.checked_lt(&bound)?;
            if !more_j {
                break ;
            }
            let jp1 = j.add(1)?;
            let vj = vec_read(vet, j)?;
            let vjp = vec_read(vet, jp1)?;
            let xj = vj.inner()?;
            let xjp = vjp.inner()?;
            if xj > xjp {
                let jj = j.inner()?;
                let jp = jp1.inner()?;
                vec_swap(vet, jj, jp)?;
                swapped = Hardened::from(true);
            }
            j.assign(jp1)?;
        }
        // The pass has carried the maximum of the prefix to its end, so the
        // sorted tail grows by one.
        proof {
            if all_coherent(old(vet)@) {
                assert forall|p: int, q: int|
                    n.cp1 - i.cp1 - 1 <= p < q < n.cp1 implies vet@[p].cp1 <= vet@[q].cp1 by {}
            }
        }
        let cont = swapped.inner()?;
        if !cont {
            // A pass without swaps means the whole prefix is already in
            // adjacent order; together with the sorted tail the vector is
            // sorted.
            proof {
                if all_coherent(old(vet)@) {
                    let vs = values_of(vet@);
                    assert forall|k: int| 0 <= k < vs.len() - 1 implies #[trigger] vs[k] <= vs[
                        k + 1
                    ] by {
                        assert(vs[k] == vet@[k].cp1);
                        assert(vs[k + 1] == vet@[k + 1].cp1);
                    }
                    crate::specs::lemma_sorted_from_adjacent(vs);
                    assert forall|p: int, q: int|
                        0 <= p < q < vet@.len() implies vet@[p].cp1 <= vet@[q].cp1 by {
                        assert(vs[p] == vet@[p].cp1);
                        assert(vs[q] == vet@[q].cp1);
                    }
                }
            }
            break ;
        }
        i.assign(i.add(1)?)?;
    }
    proof {
        if all_coherent(old(vet)@) {
            assert forall|p: int, q: int|
                0 <= p < q < vet@.len() implies values_of(vet@)[p] <= values_of(vet@)[q] by {
                assert(values_of(vet@)[p] == vet@[p].cp1);
                assert(values_of(vet@)[q] == vet@[q].cp1);
            }
        }
    }
    Ok(())
}

} // verus!
