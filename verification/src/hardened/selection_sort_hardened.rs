//! Selection sort over redundant values.  Every read, comparison, index and
//! assignment goes through the checked operations of [`crate::hardened`], so
//! a corrupted copy anywhere in the data is caught the first time it is
//! used and surfaces as that operation's error tag.

use crate::hardened::{all_coherent, values_of, vec_read, vec_swap, Hardened, IncoherenceError};
use crate::specs::sorted;
use vstd::prelude::*;

verus! {

/// Sorts a hardened vector in non-decreasing order of its carried values.
///
/// On fully coherent input the sort always succeeds and leaves the vector
/// coherent and sorted; whatever happens, the multiset of pairs (and so the
/// length) is preserved, since elements are only ever swapped.
pub fn selection_sort(vet: &mut Vec<Hardened<i32>>) -> (r: Result<(), IncoherenceError>)
    requires
        old(vet)@.len() >= 1,
    ensures
        all_coherent(old(vet)@) ==> r is Ok && all_coherent(final(vet)@) && sorted(
            values_of(final(vet)@),
        ),
        final(vet)@.to_multiset() == old(vet)@.to_multiset(),
        final(vet)@.len() == old(vet)@.len(),
{
    let n: Hardened<usize> = Hardened::from(vet.len());
    let mut j: Hardened<usize> = Hardened::from(0usize);
    let mut min: Hardened<usize> = Hardened::from(0usize);
    let mut i: Hardened<usize> = Hardened::from(0usize);
    loop
        invariant
            n.coherent(),
            n.cp1 == vet@.len(),
            n.cp1 >= 1,
            i.coherent(),
            j.coherent(),
            min.coherent(),
            i.cp1 <= n.cp1 - 1,
            vet@.len() == old(vet)@.len(),
            vet@.to_multiset() == old(vet)@.to_multiset(),
            all_coherent(old(vet)@) ==> all_coherent(vet@),
            all_coherent(old(vet)@) ==> forall|p: int, q: int|
                0 <= p < q < i.cp1 ==> vet@[p].cp1 <= vet@[q].cp1,
            all_coherent(old(vet)@) ==> forall|p: int, q: int|
                0 <= p < i.cp1 && i.cp1 <= q < n.cp1 ==> vet@[p].cp1 <= vet@[q].cp1,
        ensures
            i.cp1 == n.cp1 - 1,
            n.cp1 == vet@.len(),
            vet@.to_multiset() == old(vet)@.to_multiset(),
            all_coherent(old(vet)@) ==> all_coherent(vet@),
            all_coherent(old(vet)@) ==> forall|p: int, q: int|
                0 <= p < q < i.cp1 ==> vet@[p].cp1 <= vet@[q].cp1,
            all_coherent(old(vet)@) ==> forall|p: int, q: int|
                0 <= p < i.cp1 && i.cp1 <= q < n.cp1 ==> vet@[p].cp1 <= vet@[q].cp1,
        decreases n.cp1 - 1 - i.cp1,
    {
        let nm1 = n.sub(1)?;
        let more = i.checked_lt(&nm1)?;
        if !more {
            break ;
        }
        min.assign(i)?;
        j.assign(i.add(1)?)?;
        loop
            invariant
                n.coherent(),
                n.cp1 == vet@.len(),
                n.cp1 >= 1,
                i.coherent(),
                j.coherent(),
                min.coherent(),
                i.cp1 < n.cp1 - 1,
                i.cp1 <= min.cp1 < j.cp1,
                i.cp1 + 1 <= j.cp1 <= n.cp1,
                vet@.len() == old(vet)@.len(),
                vet@.to_multiset() == old(vet)@.to_multiset(),
                all_coherent(old(vet)@) ==> all_coherent(vet@),
                all_coherent(old(vet)@) ==> forall|k: int|
                    i.cp1 <= k < j.cp1 ==> vet@[min.cp1 as int].cp1 <= (#[trigger] vet@[k]).cp1,
                all_coherent(old(vet)@) ==> forall|p: int, q: int|
                    0 <= p < q < i.cp1 ==> vet@[p].cp1 <= vet@[q].cp1,
                all_coherent(old(vet)@) ==> forall|p: int, q: int|
                    0 <= p < i.cp1 && i.cp1 <= q < n.cp1 ==> vet@[p].cp1 <= vet@[q].cp1,
            ensures
                j.cp1 == n.cp1,
                i.cp1 <= min.cp1 < n.cp1,
                i.cp1 < n.cp1 - 1,
                i.coherent(),
                min.coherent(),
                n.cp1 == vet@.len(),
                vet@.to_multiset() == old(vet)@.to_multiset(),
                all_coherent(old(vet)@) ==> all_coherent(vet@),
                all_coherent(old(vet)@) ==> forall|k: int|
                    i.cp1 <= k < n.cp1 ==> vet@[min.cp1 as int].cp1 <= (#[trigger] vet@[k]).cp1,
                all_coherent(old(vet)@) ==> forall|p: int, q: int|
                    0 <= p < q < i.cp1 ==> vet@[p].cp1 <= vet@[q].cp1,
                all_coherent(old(vet)@) ==> forall|p: int, q: int|
                    0 <= p < i.cp1 && i.cp1 <= q < n.cp1 ==> vet@[p].cp1 <= vet@[q].cp1,
            decreases n.cp1 - j.cp1,
        {
            let more_j = j.checked_lt(&n)?;
            if !more_j {
                break ;
            }
            let vj = vec_read(vet, j)?;
            let vmin = vec_read(vet, min)?;
            if vj.checked_lt(&vmin)? {
                min.assign(j)?;
            }
            j.assign(j.add(1)?)?;
        }
        let ii = i.inner()?;
        let mm = min.inner()?;
        let ghost before = vet@;
        vec_swap(vet, ii, mm)?;
        proof {
            if all_coherent(old(vet)@) {
                assert forall|p: int, q: int|
                    0 <= p < q < i.cp1 + 1 implies vet@[p].cp1 <= vet@[q].cp1 by {}
            }
        }
        i.assign(i.add(1)?)?;
    }
    proof {
        if all_coherent(old(vet)@) {
            assert forall|p: int, q: int|
                0 <= p < q < vet@.len() implies values_of(vet@)[p] <= values_of(vet@)[q] by {
                assert(values_of(vet@)[p] == vet@[p].cp1);
                assert(values_of(vet@)[q] == vet@[q].cp1);
            }
        }
    }
    Ok(())
}

} // verus!
