//! The redundant-value abstraction.
//!
//! A [`Hardened<T>`] holds two copies of one value.  Every defined operation
//! first checks that the copies of its operands agree ("coherence") and
//! fails with a tag from [`IncoherenceError`] when they do not; on success it
//! applies the operation identically to both copies.  The only sanctioned way
//! to break coherence is to write one copy directly, which is how an injected
//! fault is modelled.

pub mod bubble_sort_hardened;
pub mod matrix_multiplication_hardened;
pub mod selection_sort_hardened;

use vstd::prelude::*;

verus! {

/// One tag per detection point.  Every tag is a detected-fault outcome of a
/// trial, never a process-ending failure.
#[derive(Clone, Copy, Debug, PartialEq, Eq, Structural)]
pub enum IncoherenceError {
    /// `assign` saw an incoherent source operand.
    AssignFail,
    /// `add` saw an incoherent operand.
    AddFail,
    /// `sub` saw an incoherent operand.
    SubFail,
    /// `mul` saw an incoherent operand.
    MulFail,
    /// A write through an index was out of range.
    IndexMutFail,
    /// A read through an index used an incoherent or out-of-range index.
    IndexFail,
    /// A total-order comparison saw an incoherent operand.
    OrdFail,
    /// A partial-order comparison saw an incoherent operand.
    PartialOrdFail,
    /// An equality test saw an incoherent operand.
    PartialEqFail,
    /// A bare read (`inner`) saw an incoherent value.
    InnerFail,
}

/// A value stored as two copies that must agree.
///
/// The copies are public on purpose: the injector corrupts a run by writing
/// `cp1` alone, bypassing the checked operations below.
#[derive(Clone, Copy, Debug, PartialEq, Eq)]
pub struct Hardened<T> {
    pub cp1: T,
    pub cp2: T,
}

impl<T> Hardened<T> {
    /// Both copies agree.  Every checked operation verifies this of its
    /// operands before touching their values.
    pub open spec fn coherent(self) -> bool {
        self.cp1 == self.cp2
    }
}

/// Duplicating a plain value gives a coherent pair.
impl<T: Copy> From<T> for Hardened<T> {
    fn from(value: T) -> (r: Self) {
        Hardened { cp1: value, cp2: value }
    }
}

impl<T: Copy> vstd::std_specs::convert::FromSpecImpl<T> for Hardened<T> {
    open spec fn obeys_from_spec() -> bool {
        true
    }

    open spec fn from_spec(v: T) -> Self {
        Hardened { cp1: v, cp2: v }
    }
}

impl Hardened<i32> {
    /// The coherence check: true exactly when the two copies disagree,
    /// that is, when a fault has been caught.
    pub fn incoherent(&self) -> (r: bool)
        ensures
            r == !self.coherent(),
    {
        self.cp1 != self.cp2
    }

    /// `a.assign(b)` plays the role of `a = b`.  Only the source operand is
    /// checked: overwriting a corrupted destination heals it, so a fault in a
    /// variable that is reassigned before any read stays silent.
    pub fn assign(&mut self, other: Hardened<i32>) -> (r: Result<(), IncoherenceError>)
        ensures
            other.coherent() ==> r is Ok && *final(self) == other,
            !other.coherent() ==> r == Err::<(), IncoherenceError>(IncoherenceError::AssignFail)
                && *final(self) == *old(self),
    {
        if other.incoherent() {
            return Err(IncoherenceError::AssignFail);
        }
        self.cp1 = other.cp1;
        self.cp2 = other.cp2;
        Ok(())
    }

    /// Extracts the carried value after checking coherence.
    pub fn inner(&self) -> (r: Result<i32, IncoherenceError>)
        ensures
            self.coherent() ==> r == Ok::<i32, IncoherenceError>(self.cp1),
            !self.coherent() ==> r == Err::<i32, IncoherenceError>(IncoherenceError::InnerFail),
    {
        if self.incoherent() {
            return Err(IncoherenceError::InnerFail);
        }
        Ok(self.cp1)
    }

    /// Coherent operands add (wrapping on overflow, applied to both copies
    /// alike); an incoherent operand is a detected fault.
    pub fn add(self, rhs: Hardened<i32>) -> (r: Result<Hardened<i32>, IncoherenceError>)
        ensures
            self.coherent() && rhs.coherent() ==> {
                &&& r is Ok
                &&& r->Ok_0.coherent()
                &&& r->Ok_0.cp1 == vstd::wrapping::i32_specs::wrapping_add(self.cp1, rhs.cp1)
            },
            self.coherent() && rhs.coherent() && i32::MIN <= self.cp1 + rhs.cp1 <= i32::MAX
                ==> r->Ok_0.cp1 == self.cp1 + rhs.cp1,
            !(self.coherent() && rhs.coherent()) ==> r == Err::<Hardened<i32>, IncoherenceError>(
                IncoherenceError::AddFail,
            ),
    {
        if self.incoherent() || rhs.incoherent() {
            return Err(IncoherenceError::AddFail);
        }
        Ok(Hardened { cp1: self.cp1.wrapping_add(rhs.cp1), cp2: self.cp2.wrapping_add(rhs.cp2) })
    }

    /// Checked subtraction; as `add`.
    pub fn sub(self, rhs: Hardened<i32>) -> (r: Result<Hardened<i32>, IncoherenceError>)
        ensures
            self.coherent() && rhs.coherent() ==> {
                &&& r is Ok
                &&& r->Ok_0.coherent()
                &&& r->Ok_0.cp1 == vstd::wrapping::i32_specs::wrapping_sub(self.cp1, rhs.cp1)
            },
            self.coherent() && rhs.coherent() && i32::MIN <= self.cp1 - rhs.cp1 <= i32::MAX
                ==> r->Ok_0.cp1 == self.cp1 - rhs.cp1,
            !(self.coherent() && rhs.coherent()) ==> r == Err::<Hardened<i32>, IncoherenceError>(
                IncoherenceError::SubFail,
            ),
    {
        if self.incoherent() || rhs.incoherent() {
            return Err(IncoherenceError::SubFail);
        }
        Ok(Hardened { cp1: self.cp1.wrapping_sub(rhs.cp1), cp2: self.cp2.wrapping_sub(rhs.cp2) })
    }

    /// Checked multiplication; as `add`.
    pub fn mul(self, rhs: Hardened<i32>) -> (r: Result<Hardened<i32>, IncoherenceError>)
        ensures
            self.coherent() && rhs.coherent() ==> {
                &&& r is Ok
                &&& r->Ok_0.coherent()
                &&& r->Ok_0.cp1 == vstd::wrapping::i32_specs::wrapping_mul(self.cp1, rhs.cp1)
            },
            self.coherent() && rhs.coherent() && i32::MIN <= self.cp1 * rhs.cp1 <= i32::MAX
                ==> r->Ok_0.cp1 == self.cp1 * rhs.cp1,
            !(self.coherent() && rhs.coherent()) ==> r == Err::<Hardened<i32>, IncoherenceError>(
                IncoherenceError::MulFail,
            ),
    {
        if self.incoherent() || rhs.incoherent() {
            return Err(IncoherenceError::MulFail);
        }
        Ok(Hardened { cp1: self.cp1.wrapping_mul(rhs.cp1), cp2: self.cp2.wrapping_mul(rhs.cp2) })
    }

    /// Checked strict comparison.  Either operand incoherent is a detected
    /// fault: a corrupted copy never silently decides an ordering.
    pub fn checked_lt(&self, other: &Hardened<i32>) -> (r: Result<bool, IncoherenceError>)
        ensures
            self.coherent() && other.coherent() ==> r == Ok::<bool, IncoherenceError>(
                self.cp1 < other.cp1,
            ),
            !(self.coherent() && other.coherent()) ==> r == Err::<bool, IncoherenceError>(
                IncoherenceError::PartialOrdFail,
            ),
    {
        if self.incoherent() || other.incoherent() {
            return Err(IncoherenceError::PartialOrdFail);
        }
        Ok(self.cp1 < other.cp1)
    }

    /// Checked equality test; as `checked_lt` with its own tag.
    pub fn checked_eq(&self, other: &Hardened<i32>) -> (r: Result<bool, IncoherenceError>)
        ensures
            self.coherent() && other.coherent() ==> r == Ok::<bool, IncoherenceError>(
                self.cp1 == other.cp1,
            ),
            !(self.coherent() && other.coherent()) ==> r == Err::<bool, IncoherenceError>(
                IncoherenceError::PartialEqFail,
            ),
    {
        if self.incoherent() || other.incoherent() {
            return Err(IncoherenceError::PartialEqFail);
        }
        Ok(self.cp1 == other.cp1)
    }
}

impl Hardened<usize> {
    /// The coherence check for index-typed pairs.
    pub fn incoherent(&self) -> (r: bool)
        ensures
            r == !self.coherent(),
    {
        self.cp1 != self.cp2
    }

    /// As [`Hardened::<i32>::assign`]: only the source operand is checked.
    pub fn assign(&mut self, other: Hardened<usize>) -> (r: Result<(), IncoherenceError>)
        ensures
            other.coherent() ==> r is Ok && *final(self) == other,
            !other.coherent() ==> r == Err::<(), IncoherenceError>(IncoherenceError::AssignFail)
                && *final(self) == *old(self),
    {
        if other.incoherent() {
            return Err(IncoherenceError::AssignFail);
        }
        self.cp1 = other.cp1;
        self.cp2 = other.cp2;
        Ok(())
    }

    /// Extracts the carried index after checking coherence.
    pub fn inner(&self) -> (r: Result<usize, IncoherenceError>)
        ensures
            self.coherent() ==> r == Ok::<usize, IncoherenceError>(self.cp1),
            !self.coherent() ==> r == Err::<usize, IncoherenceError>(IncoherenceError::InnerFail),
    {
        if self.incoherent() {
            return Err(IncoherenceError::InnerFail);
        }
        Ok(self.cp1)
    }

    /// Checked addition of a plain step, as in `i.add(1)` for `i = i + 1`.
    /// Only the pair is an operand to check; the step is a constant of the
    /// program text.  Wraps on overflow.
    pub fn add(self, rhs: usize) -> (r: Result<Hardened<usize>, IncoherenceError>)
        ensures
            self.coherent() ==> {
                &&& r is Ok
                &&& r->Ok_0.coherent()
                &&& r->Ok_0.cp1 == vstd::wrapping::usize_specs::wrapping_add(self.cp1, rhs)
            },
            self.coherent() && self.cp1 + rhs <= usize::MAX ==> r->Ok_0.cp1 == self.cp1 + rhs,
            !self.coherent() ==> r == Err::<Hardened<usize>, IncoherenceError>(
                IncoherenceError::AddFail,
            ),
    {
        if self.incoherent() {
            return Err(IncoherenceError::AddFail);
        }
        Ok(Hardened { cp1: self.cp1.wrapping_add(rhs), cp2: self.cp2.wrapping_add(rhs) })
    }

    /// Checked subtraction of a plain step; as `add`.  Wraps on underflow.
    pub fn sub(self, rhs: usize) -> (r: Result<Hardened<usize>, IncoherenceError>)
        ensures
            self.coherent() ==> {
                &&& r is Ok
                &&& r->Ok_0.coherent()
                &&& r->Ok_0.cp1 == vstd::wrapping::usize_specs::wrapping_sub(self.cp1, rhs)
            },
            self.coherent() && self.cp1 >= rhs ==> r->Ok_0.cp1 == self.cp1 - rhs,
            !self.coherent() ==> r == Err::<Hardened<usize>, IncoherenceError>(
                IncoherenceError::SubFail,
            ),
    {
        if self.incoherent() {
            return Err(IncoherenceError::SubFail);
        }
        Ok(Hardened { cp1: self.cp1.wrapping_sub(rhs), cp2: self.cp2.wrapping_sub(rhs) })
    }

    /// Checked subtraction of another pair, as in `n.sub_hardened(i)`.
    pub fn sub_hardened(self, rhs: Hardened<usize>) -> (r: Result<
        Hardened<usize>,
        IncoherenceError,
    >)
        ensures
            self.coherent() && rhs.coherent() ==> {
                &&& r is Ok
                &&& r->Ok_0.coherent()
                &&& r->Ok_0.cp1 == vstd::wrapping::usize_specs::wrapping_sub(self.cp1, rhs.cp1)
            },
            self.coherent() && rhs.coherent() && self.cp1 >= rhs.cp1 ==> r->Ok_0.cp1 == self.cp1
                - rhs.cp1,
            !(self.coherent() && rhs.coherent()) ==> r == Err::<Hardened<usize>, IncoherenceError>(
                IncoherenceError::SubFail,
            ),
    {
        if self.incoherent() || rhs.incoherent() {
            return Err(IncoherenceError::SubFail);
        }
        Ok(Hardened { cp1: self.cp1.wrapping_sub(rhs.cp1), cp2: self.cp2.wrapping_sub(rhs.cp2) })
    }

    /// Checked strict comparison of two index pairs.
    pub fn checked_lt(&self, other: &Hardened<usize>) -> (r: Result<bool, IncoherenceError>)
        ensures
            self.coherent() && other.coherent() ==> r == Ok::<bool, IncoherenceError>(
                self.cp1 < other.cp1,
            ),
            !(self.coherent() && other.coherent()) ==> r == Err::<bool, IncoherenceError>(
                IncoherenceError::PartialOrdFail,
            ),
    {
        if self.incoherent() || other.incoherent() {
            return Err(IncoherenceError::PartialOrdFail);
        }
        Ok(self.cp1 < other.cp1)
    }
}

impl Hardened<bool> {
    /// The coherence check for flag pairs.
    pub fn incoherent(&self) -> (r: bool)
        ensures
            r == !self.coherent(),
    {
        self.cp1 != self.cp2
    }

    /// As [`Hardened::<i32>::assign`]: only the source operand is checked.
    pub fn assign(&mut self, other: Hardened<bool>) -> (r: Result<(), IncoherenceError>)
        ensures
            other.coherent() ==> r is Ok && *final(self) == other,
            !other.coherent() ==> r == Err::<(), IncoherenceError>(IncoherenceError::AssignFail)
                && *final(self) == *old(self),
    {
        if other.incoherent() {
            return Err(IncoherenceError::AssignFail);
        }
        self.cp1 = other.cp1;
        self.cp2 = other.cp2;
        Ok(())
    }

    /// Extracts the carried flag after checking coherence.
    pub fn inner(&self) -> (r: Result<bool, IncoherenceError>)
        ensures
            self.coherent() ==> r == Ok::<bool, IncoherenceError>(self.cp1),
            !self.coherent() ==> r == Err::<bool, IncoherenceError>(IncoherenceError::InnerFail),
    {
        if self.incoherent() {
            return Err(IncoherenceError::InnerFail);
        }
        Ok(self.cp1)
    }
}

/// Every pair of the sequence is coherent.
pub open spec fn all_coherent<T>(s: Seq<Hardened<T>>) -> bool {
    forall|k: int| 0 <= k < s.len() ==> (#[trigger] s[k]).coherent()
}

/// The primary copies of a sequence of pairs, as plain values.
pub open spec fn values_of(s: Seq<Hardened<i32>>) -> Seq<i32> {
    s.map_values(|h: Hardened<i32>| h.cp1)
}

/// Every pair of every row is coherent.
pub open spec fn mat_all_coherent(m: Seq<Vec<Hardened<i32>>>) -> bool {
    forall|i: int| 0 <= i < m.len() ==> all_coherent((#[trigger] m[i])@)
}

/// The primary copies of a matrix of pairs, as a plain mathematical matrix.
pub open spec fn mat_values_of(m: Seq<Vec<Hardened<i32>>>) -> Seq<Seq<i32>> {
    m.map_values(|row: Vec<Hardened<i32>>| values_of(row@))
}

/// An `n` by `n` matrix of pairs.
pub open spec fn hmat_square(m: Seq<Vec<Hardened<i32>>>, n: nat) -> bool {
    m.len() == n && forall|i: int| 0 <= i < n ==> (#[trigger] m[i])@.len() == n
}

impl Hardened<i32> {
    /// Hardens a whole vector: each element becomes a coherent pair.
    pub fn from_vec(vet: Vec<i32>) -> (r: Vec<Hardened<i32>>)
        ensures
            r@.len() == vet@.len(),
            all_coherent(r@),
            values_of(r@) == vet@,
            forall|k: int| 0 <= k < vet@.len() ==> (#[trigger] r@[k]) == (Hardened {
                cp1: vet@[k],
                cp2: vet@[k],
            }),
    {
        let mut r: Vec<Hardened<i32>> = Vec::new();
        let mut k: usize = 0;
        while k < vet.len()
            invariant
                k <= vet@.len(),
                r@.len() == k,
                forall|p: int| 0 <= p < k ==> (#[trigger] r@[p]) == (Hardened {
                    cp1: vet@[p],
                    cp2: vet@[p],
                }),
            decreases vet@.len() - k,
        {
            r.push(Hardened::from(vet[k]));
            k += 1;
        }
        proof {
            assert(values_of(r@) =~= vet@);
        }
        r
    }

    /// Hardens a whole matrix, row by row.
    pub fn from_mat(mat: Vec<Vec<i32>>) -> (r: Vec<Vec<Hardened<i32>>>)
        ensures
            r@.len() == mat@.len(),
            forall|i: int| 0 <= i < mat@.len() ==> (#[trigger] r@[i])@.len() == mat@[i]@.len(),
            forall|i: int| 0 <= i < mat@.len() ==> all_coherent(#[trigger] r@[i]@),
            forall|i: int, j: int|
                0 <= i < mat@.len() && 0 <= j < mat@[i]@.len() ==> #[trigger] r@[i]@[j] == (Hardened {
                    cp1: mat@[i]@[j],
                    cp2: mat@[i]@[j],
                }),
    {
        let mut r: Vec<Vec<Hardened<i32>>> = Vec::new();
        let mut i: usize = 0;
        while i < mat.len()
            invariant
                i <= mat@.len(),
                r@.len() == i,
                forall|p: int| 0 <= p < i ==> (#[trigger] r@[p])@.len() == mat@[p]@.len(),
                forall|p: int, q: int|
                    0 <= p < i && 0 <= q < mat@[p]@.len() ==> #[trigger] r@[p]@[q] == (Hardened {
                        cp1: mat@[p]@[q],
                        cp2: mat@[p]@[q],
                    }),
            decreases mat@.len() - i,
        {
            let row = &mat[i];
            let mut hrow: Vec<Hardened<i32>> = Vec::new();
            let mut j: usize = 0;
            while j < row.len()
                invariant
                    j <= row@.len(),
                    hrow@.len() == j,
                    forall|q: int| 0 <= q < j ==> (#[trigger] hrow@[q]) == (Hardened {
                        cp1: row@[q],
                        cp2: row@[q],
                    }),
                decreases row@.len() - j,
            {
                hrow.push(Hardened::from(row[j]));
                j += 1;
            }
            r.push(hrow);
            i += 1;
        }
        r
    }
}

/// Reads `v[index]` through a redundant index: the index must be coherent and
/// in range, else the read is a detected fault.
pub fn vec_read(v: &Vec<Hardened<i32>>, index: Hardened<usize>) -> (r: Result<
    Hardened<i32>,
    IncoherenceError,
>)
    ensures
        index.coherent() && index.cp1 < v@.len() ==> r == Ok::<Hardened<i32>, IncoherenceError>(
            v@[index.cp1 as int],
        ),
        !(index.coherent() && index.cp1 < v@.len()) ==> r == Err::<Hardened<i32>, IncoherenceError>(
            IncoherenceError::IndexFail,
        ),
{
    if index.incoherent() {
        return Err(IncoherenceError::IndexFail);
    }
    if index.cp1 >= v.len() {
        return Err(IncoherenceError::IndexFail);
    }
    Ok(v[index.cp1])
}

/// Swaps two elements through plain (already extracted and checked) indices;
/// an out-of-range index is a detected write fault.
pub fn vec_swap(v: &mut Vec<Hardened<i32>>, i: usize, j: usize) -> (r: Result<
    (),
    IncoherenceError,
>)
    ensures
        i < old(v)@.len() && j < old(v)@.len() ==> {
            &&& r is Ok
            &&& final(v)@ == old(v)@.update(i as int, old(v)@[j as int]).update(
                j as int,
                old(v)@[i as int],
            )
        },
        !(i < old(v)@.len() && j < old(v)@.len()) ==> r == Err::<(), IncoherenceError>(
            IncoherenceError::IndexMutFail,
        ) && final(v)@ == old(v)@,
        final(v)@.to_multiset() == old(v)@.to_multiset(),
        final(v)@.len() == old(v)@.len(),
{
    if i >= v.len() || j >= v.len() {
        return Err(IncoherenceError::IndexMutFail);
    }
    let vi = v[i];
    let vj = v[j];
    v[i] = vj;
    v[j] = vi;
    proof {
        crate::specs::lemma_swap_multiset(old(v)@, i as int, j as int);
    }
    Ok(())
}

/// Reads `m[row][col]` through redundant indices: both must be coherent and
/// in range, else the read is a detected fault.
pub fn mat_read(
    m: &Vec<Vec<Hardened<i32>>>,
    row: Hardened<usize>,
    col: Hardened<usize>,
) -> (r: Result<Hardened<i32>, IncoherenceError>)
    ensures
        row.coherent() && col.coherent() && row.cp1 < m@.len() && col.cp1
            < m@[row.cp1 as int]@.len() ==> r == Ok::<Hardened<i32>, IncoherenceError>(
            m@[row.cp1 as int]@[col.cp1 as int],
        ),
        !(row.coherent() && col.coherent() && row.cp1 < m@.len() && col.cp1
            < m@[row.cp1 as int]@.len()) ==> r == Err::<Hardened<i32>, IncoherenceError>(
            IncoherenceError::IndexFail,
        ),
{
    if row.incoherent() || col.incoherent() {
        return Err(IncoherenceError::IndexFail);
    }
    if row.cp1 >= m.len() {
        return Err(IncoherenceError::IndexFail);
    }
    let r_ref = &m[row.cp1];
    if col.cp1 >= r_ref.len() {
        return Err(IncoherenceError::IndexFail);
    }
    Ok(r_ref[col.cp1])
}

/// Writes a pair into `m[row][col]` through plain (already extracted and
/// checked) indices, with assignment semantics: an out-of-range index is a
/// detected write fault, an incoherent source a detected assignment fault.
pub fn mat_write(
    m: &mut Vec<Vec<Hardened<i32>>>,
    row: usize,
    col: usize,
    val: Hardened<i32>,
) -> (r: Result<(), IncoherenceError>)
    ensures
        row < old(m)@.len() && col < old(m)@[row as int]@.len() && val.coherent() ==> {
            &&& r is Ok
            &&& final(m)@.len() == old(m)@.len()
            &&& forall|p: int|
                0 <= p < old(m)@.len() && p != row ==> #[trigger] final(m)@[p] == old(m)@[p]
            &&& final(m)@[row as int]@ == old(m)@[row as int]@.update(col as int, val)
        },
        row < old(m)@.len() && col < old(m)@[row as int]@.len() && !val.coherent() ==> r == Err::<
            (),
            IncoherenceError,
        >(IncoherenceError::AssignFail) && final(m)@ == old(m)@,
        !(row < old(m)@.len() && col < old(m)@[row as int]@.len()) ==> r == Err::<
            (),
            IncoherenceError,
        >(IncoherenceError::IndexMutFail) && final(m)@ == old(m)@,
{
    if row >= m.len() {
        return Err(IncoherenceError::IndexMutFail);
    }
    if col >= m[row].len() {
        return Err(IncoherenceError::IndexMutFail);
    }
    if val.incoherent() {
        return Err(IncoherenceError::AssignFail);
    }
    let row_ref = &mut m[row];
    row_ref[col] = val;
    Ok(())
}

/// The instruction count of a fault-free matrix-multiplication run on
/// `n` by `n` matrices: every executed statement of the plain kernel,
/// counted once.
pub open spec fn spec_count_matrix_mul(n: int) -> int {
    3 + n * (3 + 3 * n + 2 * n * n)
}

/// Replays the plain matrix multiplication while counting every executed
/// statement, to size the window in which a fault can be scheduled.
pub fn run_for_count_matrix_mul(matrici: crate::fault_env::Data<i32>, size: usize) -> (count:
    usize)
    requires
        matrici is Matrices,
        crate::specs::mat_square(crate::specs::mat_view(matrici->Matrices_0@), size as nat),
        crate::specs::mat_square(crate::specs::mat_view(matrici->Matrices_1@), size as nat),
        spec_count_matrix_mul(size as int) <= usize::MAX,
    ensures
        count as int == spec_count_matrix_mul(size as int),
{
    let matrices = matrici.into_matrices();
    let a = matrices.0;
    let b = matrices.1;
    let ghost n = size as int;
    let ghost xi = 3 + 3 * n + 2 * n * n;

    let mut result: Vec<Vec<i32>> = Vec::new();
    let mut count: usize = 3;
    let mut i: usize = 0;
    while i < size
        invariant
            size as int == n,
            xi == 3 + 3 * n + 2 * n * n,
            3 + n * xi <= usize::MAX,
            crate::specs::mat_square(crate::specs::mat_view(a@), size as nat),
            crate::specs::mat_square(crate::specs::mat_view(b@), size as nat),
            i <= size,
            count as int == 3 + i * xi,
        decreases size - i,
    {
        proof {
            assert(3 + i as int * xi + 2 <= 3 + n * xi) by (nonlinear_arith)
                requires
                    0 <= i < n,
                    xi == 3 + 3 * n + 2 * n * n,
            ;
        }
        count = count + 1;
        let mut row: Vec<i32> = Vec::new();
        count = count + 1;
        let mut j: usize = 0;
        while j < size
            invariant
                size as int == n,
                xi == 3 + 3 * n + 2 * n * n,
                3 + n * xi <= usize::MAX,
                crate::specs::mat_square(crate::specs::mat_view(a@), size as nat),
                crate::specs::mat_square(crate::specs::mat_view(b@), size as nat),
                i < size,
                j <= size,
                count as int == 3 + i * xi + 2 + j * (3 + 2 * n),
            decreases size - j,
        {
            proof {
                assert(3 + i as int * xi + 2 + j as int * (3 + 2 * n) + 2 <= 3 + n * xi)
                    by (nonlinear_arith)
                    requires
                        0 <= i < n,
                        0 <= j < n,
                        xi == 3 + 3 * n + 2 * n * n,
                ;
            }
            count = count + 1;
            let mut acc: i32 = 0;
            count = count + 1;
            let mut k: usize = 0;
            while k < size
                invariant
                    size as int == n,
                    xi == 3 + 3 * n + 2 * n * n,
                    3 + n * xi <= usize::MAX,
                    crate::specs::mat_square(crate::specs::mat_view(a@), size as nat),
                    crate::specs::mat_square(crate::specs::mat_view(b@), size as nat),
                    i < size,
                    j < size,
                    k <= size,
                    count as int == 3 + i * xi + 2 + j * (3 + 2 * n) + 2 + 2 * k,
                decreases size - k,
            {
                proof {
                    assert(3 + i as int * xi + 2 + j as int * (3 + 2 * n) + 2 + 2 * k as int + 2
                        <= 3 + n * xi) by (nonlinear_arith)
                        requires
                            0 <= i < n,
                            0 <= j < n,
                            0 <= k < n,
                            xi == 3 + 3 * n + 2 * n * n,
                    ;
                    assert(crate::specs::mat_view(a@)[i as int] == a@[i as int]@);
                    assert(crate::specs::mat_view(b@)[k as int] == b@[k as int]@);
                }
                count = count + 1;
                let aik = a[i][k];
                let bkj = b[k][j];
                acc = acc.wrapping_add(aik.wrapping_mul(bkj));
                count = count + 1;
                k += 1;
            }
            row.push(acc);
            proof {
                assert(3 + i as int * xi + 2 + j as int * (3 + 2 * n) + 2 + 2 * n + 1 <= 3 + n
                    * xi) by (nonlinear_arith)
                    requires
                        0 <= i < n,
                        0 <= j < n,
                        xi == 3 + 3 * n + 2 * n * n,
                ;
                assert((j as int + 1) * (3 + 2 * n) == j as int * (3 + 2 * n) + (3 + 2 * n))
                    by (nonlinear_arith);
            }
            count = count + 1;
            j += 1;
        }
        result.push(row);
        proof {
            assert(3 + i as int * xi + 2 + n * (3 + 2 * n) + 1 == 3 + (i as int + 1) * xi)
                by (nonlinear_arith)
                requires
                    xi == 3 + 3 * n + 2 * n * n,
            ;
            assert(3 + (i as int + 1) * xi <= 3 + n * xi) by (nonlinear_arith)
                requires
                    0 <= i < n,
                    xi == 3 + 3 * n + 2 * n * n,
            ;
        }
        count = count + 1;
        i += 1;
    }
    count
}

/// One scan of the selection-sort count replay: from position `j` to the
/// end, tracking the running minimum.  Yields the statements counted and
/// the index the minimum ends on.
pub open spec fn sel_count_scan(v: Seq<i32>, j: int, min: int, n: int) -> (int, int)
    decreases n - j,
{
    if j < 0 || j >= n {
        (0, min)
    } else {
        let hit = 0 <= min < v.len() && 0 <= j < v.len() && v[j] < v[min];
        let min2 = if hit {
            j
        } else {
            min
        };
        let rest = sel_count_scan(v, j + 1, min2, n);
        ((if hit {
            3int
        } else {
            2int
        }) + rest.0, rest.1)
    }
}

/// The statements counted by the selection-sort replay from pass `i` on,
/// with the vector evolving through the passes' swaps.
pub open spec fn sel_count_pass(v: Seq<i32>, i: int, n: int) -> int
    decreases n - i,
{
    if i < 0 || i >= n - 1 {
        0
    } else {
        let scan = sel_count_scan(v, i + 1, i, n);
        let m = scan.1;
        let v2 = if 0 <= m < v.len() && 0 <= i < v.len() {
            v.update(m, v[i]).update(i, v[m])
        } else {
            v
        };
        let extra: int = if i + 1 < n - 1 {
            1int
        } else {
            0int
        };
        5 + scan.0 + extra + sel_count_pass(v2, i + 1, n)
    }
}

/// The instruction count of a fault-free selection-sort count replay.
pub open spec fn spec_count_selection_sort(v: Seq<i32>) -> int {
    5 + sel_count_pass(v, 0, v.len() as int)
}

/// Replays the plain selection sort while counting every executed
/// statement, to size the window in which a fault can be scheduled.
pub fn run_for_count_selection_sort(vettore: crate::fault_env::Data<i32>) -> (count: usize)
    requires
        vettore is Vector,
        vettore->Vector_0@.len() >= 1,
        5 + vettore->Vector_0@.len() * (7 + 3 * vettore->Vector_0@.len()) <= usize::MAX,
    ensures
        count as int == spec_count_selection_sort(vettore->Vector_0@),
{
    let mut vet = vettore.into_vector();
    let ghost v0 = vet@;
    let ghost total = spec_count_selection_sort(v0);
    let n: usize = vet.len();
    let ghost xb = 7 + 3 * (n as int);
    let mut j: usize = 0;
    let mut min: usize = 0;

    let mut count: usize = 5;
    let mut i: usize = 0;
    while i < n - 1
        invariant
            n == vet@.len(),
            n >= 1,
            i <= n - 1,
            xb == 7 + 3 * (n as int),
            5 + (n as int) * xb <= usize::MAX,
            count as int <= 5 + (i as int) * xb,
            total == spec_count_selection_sort(v0),
            v0 == vettore->Vector_0@,
            count as int + sel_count_pass(vet@, i as int, n as int) == total,
        decreases n - 1 - i,
    {
        proof {
            assert((i as int + 1) * xb == i as int * xb + xb) by (nonlinear_arith);
            assert(5 + (i as int + 1) * xb <= 5 + (n as int) * xb) by (nonlinear_arith)
                requires
                    0 <= i as int + 1 <= n as int,
                    xb >= 0,
            ;
        }
        let ghost vstart = vet@;
        count = count + 1;
        min = i;
        count = count + 1;
        j = i + 1;
        count = count + 1;
        let ghost c0 = count as int;
        while j < n
            invariant
                n == vet@.len(),
                vet@ == vstart,
                i < n - 1,
                i + 1 <= j <= n,
                i <= min < j,
                xb == 7 + 3 * (n as int),
                5 + (n as int) * xb <= usize::MAX,
                (i as int + 1) * xb == i as int * xb + xb,
                5 + (i as int + 1) * xb <= 5 + (n as int) * xb,
                c0 <= 5 + i as int * xb + 3,
                count as int <= c0 + 3 * (j as int - i as int - 1),
                count as int >= c0,
                sel_count_scan(vet@, i as int + 1, i as int, n as int).0 == (count as int - c0)
                    + sel_count_scan(vet@, j as int, min as int, n as int).0,
                sel_count_scan(vet@, i as int + 1, i as int, n as int).1 == sel_count_scan(
                    vet@,
                    j as int,
                    min as int,
                    n as int,
                ).1,
            decreases n - j,
        {
            count = count + 1;
            if vet[j] < vet[min] {
                count = count + 1;
                min = j;
            }
            count = count + 1;
            j = j + 1;
        }
        count = count + 1;
        crate::fault_list_manager::file_fault_list::swap_plain(&mut vet, min, i);
        count = count + 1;
        i = i + 1;
        if i < n - 1 {
            count = count + 1;
        }
    }
    count
}

/// One pass of the bubble-sort count replay up to `end`: yields the
/// statements counted, the vector after the pass's swaps, and whether any
/// swap happened.
pub open spec fn bub_count_scan(v: Seq<i32>, j: int, end: int, swapped: bool) -> (
    int,
    Seq<i32>,
    bool,
)
    decreases end - j,
{
    if j < 0 || j >= end {
        (0, v, swapped)
    } else {
        let hit = 0 <= j && j + 1 < v.len() && v[j] > v[j + 1];
        let v2 = if hit {
            v.update(j, v[j + 1]).update(j + 1, v[j])
        } else {
            v
        };
        let rest = bub_count_scan(v2, j + 1, end, swapped || hit);
        ((if hit {
            5int
        } else {
            2int
        }) + rest.0, rest.1, rest.2)
    }
}

/// The statements counted by the bubble-sort replay from pass `i` on; a
/// pass without swaps is the last one.
pub open spec fn bub_count_pass(v: Seq<i32>, i: int, n: int) -> int
    decreases n - i,
{
    if i < 0 || i >= n {
        0
    } else {
        let scan = bub_count_scan(v, 0, n - i - 1, false);
        3 + scan.0 + 1 + if !scan.2 {
            0int
        } else {
            bub_count_pass(scan.1, i + 1, n)
        }
    }
}

/// The instruction count of a fault-free bubble-sort count replay.
pub open spec fn spec_count_bubble_sort(v: Seq<i32>) -> int {
    2 + bub_count_pass(v, 0, v.len() as int)
}

/// Replays the plain bubble sort while counting every executed statement,
/// to size the window in which a fault can be scheduled.
pub fn run_for_count_bubble_sort(vettore: crate::fault_env::Data<i32>) -> (count: usize)
    requires
        vettore is Vector,
        2 + vettore->Vector_0@.len() * (4 + 5 * vettore->Vector_0@.len()) <= usize::MAX,
    ensures
        count as int == spec_count_bubble_sort(vettore->Vector_0@),
{
    let mut count: usize = 2;
    let mut vet = vettore.into_vector();
    let ghost v0 = vet@;
    let ghost total = spec_count_bubble_sort(v0);
    let n: usize = vet.len();
    let ghost xb = 4 + 5 * (n as int);
    let mut i: usize = 0;
    while i < n
        invariant_except_break
            n == vet@.len(),
            i <= n,
            xb == 4 + 5 * (n as int),
            2 + (n as int) * xb <= usize::MAX,
            count as int <= 2 + (i as int) * xb,
            total == spec_count_bubble_sort(v0),
            v0 == vettore->Vector_0@,
            count as int + bub_count_pass(vet@, i as int, n as int) == total,
        ensures
            total == spec_count_bubble_sort(v0),
            v0 == vettore->Vector_0@,
            count as int == total,
        decreases n - i,
    {
        proof {
            assert((i as int + 1) * xb == i as int * xb + xb) by (nonlinear_arith);
            assert(2 + (i as int + 1) * xb <= 2 + (n as int) * xb) by (nonlinear_arith)
                requires
                    0 <= i as int + 1 <= n as int,
                    xb >= 0,
            ;
        }
        let ghost vstart = vet@;
        let ghost end0 = n as int - i as int - 1;
        count = count + 1;
        let mut swapped = false;
        count = count + 1;
        let mut j: usize = 0;
        count = count + 1;
        let ghost c0 = count as int;
        while j < n - i - 1
            invariant
                n == vet@.len(),
                i < n,
                end0 == n as int - i as int - 1,
                j as int <= end0,
                xb == 4 + 5 * (n as int),
                2 + (n as int) * xb <= usize::MAX,
                (i as int + 1) * xb == i as int * xb + xb,
                2 + (i as int + 1) * xb <= 2 + (n as int) * xb,
                c0 <= 2 + i as int * xb + 3,
                c0 <= count as int <= c0 + 5 * (j as int),
                bub_count_scan(vstart, 0, end0, false).0 == (count as int - c0) + bub_count_scan(
                    vet@,
                    j as int,
                    end0,
                    swapped,
                ).0,
                bub_count_scan(vstart, 0, end0, false).1 == bub_count_scan(
                    vet@,
                    j as int,
                    end0,
                    swapped,
                ).1,
                bub_count_scan(vstart, 0, end0, false).2 == bub_count_scan(
                    vet@,
                    j as int,
                    end0,
                    swapped,
                ).2,
            decreases n - i - 1 - j,
        {
            count = count + 1;
            if vet[j] > vet[j + 1] {
                count = count + 1;
                crate::fault_list_manager::file_fault_list::swap_plain(&mut vet, j, j + 1);
                count = count + 1;
                swapped = true;
                count = count + 1;
            }
            j = j + 1;
            count = count + 1;
        }
        if !swapped {
            count = count + 1;
            break ;
        }
        i = i + 1;
        count = count + 1;
    }
    count
}

/// Hands the primary copies of a hardened vector out as plain values.
pub trait IntoNestedVec {
    /// The plain values this collection carries, as a sequence.
    spec fn flat_view(&self) -> Seq<i32>;

    /// Extracts the primary copy of each element.
    fn into_nested_vec(self) -> (r: Vec<i32>)
        ensures
            r@ == self.flat_view(),
    ;
}

impl IntoNestedVec for Vec<Hardened<i32>> {
    open spec fn flat_view(&self) -> Seq<i32> {
        values_of(self@)
    }

    fn into_nested_vec(self) -> (r: Vec<i32>) {
        let mut r: Vec<i32> = Vec::new();
        let mut k: usize = 0;
        while k < self.len()
            invariant
                k <= self@.len(),
                r@.len() == k,
                forall|p: int| 0 <= p < k ==> #[trigger] r@[p] == self@[p].cp1,
            decreases self@.len() - k,
        {
            r.push(self[k].cp1);
            k += 1;
        }
        proof {
            assert(r@ =~= values_of(self@));
        }
        r
    }
}

} // verus!
