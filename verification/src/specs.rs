//! Shared mathematical vocabulary: what "sorted" means, what a square
//! matrix is, and the wrapped dot product that the multiplication kernels
//! compute.  Both the plain reference kernels and the hardened kernels state
//! their contracts over these definitions.

use vstd::prelude::*;

verus! {

/// Non-decreasing order.
pub open spec fn sorted(s: Seq<i32>) -> bool {
    forall|p: int, q: int| 0 <= p < q < s.len() ==> s[p] <= s[q]
}

/// Chains `s[p] <= s[p+1]` steps into `s[p] <= s[q]`.
proof fn lemma_le_chain(s: Seq<i32>, p: int, q: int)
    requires
        forall|k: int| 0 <= k < s.len() - 1 ==> #[trigger] s[k] <= s[k + 1],
        0 <= p <= q < s.len(),
    ensures
        s[p] <= s[q],
    decreases q - p,
{
    if p < q {
        lemma_le_chain(s, p, q - 1);
        assert(s[q - 1] <= s[q]);
    }
}

/// A sequence whose adjacent pairs are ordered is sorted.
pub proof fn lemma_sorted_from_adjacent(s: Seq<i32>)
    requires
        forall|k: int| 0 <= k < s.len() - 1 ==> #[trigger] s[k] <= s[k + 1],
    ensures
        sorted(s),
{
    assert forall|p: int, q: int| 0 <= p < q < s.len() implies s[p] <= s[q] by {
        lemma_le_chain(s, p, q);
    }
}

/// Law: there is only one sorted arrangement of given values.  A trial
/// whose output is sorted and holds the same values as the fault-free
/// reference therefore *is* the reference, so a sorting run that a fault
/// never touched ends in exactly the reference output.
pub proof fn lemma_sorted_permutation_unique(s1: Seq<i32>, s2: Seq<i32>)
    requires
        sorted(s1),
        sorted(s2),
        s1.to_multiset() == s2.to_multiset(),
    ensures
        s1 == s2,
{
    let leq = |a: i32, b: i32| a <= b;
    assert(vstd::relations::total_ordering(leq)) by {
        assert(vstd::relations::reflexive(leq));
        assert(vstd::relations::transitive(leq));
        assert(vstd::relations::antisymmetric(leq));
        assert(vstd::relations::strongly_connected(leq));
    }
    vstd::seq_lib::lemma_sorted_unique(s1, s2, leq);
    assert(s1 =~= s2);
}

/// Swapping two elements of a sequence keeps its multiset of values.
pub proof fn lemma_swap_multiset<A>(s: Seq<A>, a: int, b: int)
    requires
        0 <= a < s.len(),
        0 <= b < s.len(),
    ensures
        s.update(a, s[b]).update(b, s[a]).to_multiset() == s.to_multiset(),
{
    broadcast use vstd::seq_lib::group_to_multiset_ensures;

    let s1 = s.update(a, s[b]);
    vstd::seq_lib::to_multiset_update(s, a, s[b]);
    vstd::seq_lib::to_multiset_update(s1, b, s[a]);
    assert(s.to_multiset().contains(s[a]));
    assert(s.to_multiset().contains(s[b]));
    assert(s1.update(b, s[a]).to_multiset() =~= s.to_multiset());
}

/// A vector of rows, seen as a plain mathematical matrix.
pub open spec fn mat_view(m: Seq<Vec<i32>>) -> Seq<Seq<i32>> {
    m.map_values(|row: Vec<i32>| row@)
}

/// An `n` by `n` matrix.
pub open spec fn mat_square(m: Seq<Seq<i32>>, n: nat) -> bool {
    m.len() == n && forall|i: int| 0 <= i < n ==> (#[trigger] m[i]).len() == n
}

/// The first `k` terms of the dot product of row `i` of `a` with column `j`
/// of `b`, accumulated with wrapping arithmetic exactly as the kernels
/// compute it.
pub open spec fn wrap_dot(a: Seq<Seq<i32>>, b: Seq<Seq<i32>>, i: int, j: int, k: int) -> i32
    decreases k,
{
    if k <= 0 {
        0i32
    } else {
        vstd::wrapping::i32_specs::wrapping_add(
            wrap_dot(a, b, i, j, k - 1),
            vstd::wrapping::i32_specs::wrapping_mul(a[i][k - 1], b[k - 1][j]),
        )
    }
}

} // verus!
