//! Plain square-matrix multiplication, the fault-free reference for the
//! hardened variant.  Products and sums wrap on overflow, exactly as the
//! hardened kernel's checked operations do.

use crate::specs::{mat_square, mat_view, wrap_dot};
use vstd::prelude::*;

verus! {

/// Multiplies two `n` by `n` matrices; entry `(i, j)` of the result is the
/// wrapped dot product of row `i` of `a` and column `j` of `b`.
pub fn matrix_multiplication(a: Vec<Vec<i32>>, b: Vec<Vec<i32>>) -> (r: Vec<Vec<i32>>)
    requires
        mat_square(mat_view(a@), a@.len() as nat),
        mat_square(mat_view(b@), a@.len() as nat),
    ensures
        r@.len() == a@.len(),
        forall|i: int| 0 <= i < a@.len() ==> (#[trigger] r@[i])@.len() == a@.len(),
        forall|i: int, j: int|
            0 <= i < a@.len() && 0 <= j < a@.len() ==> #[trigger] r@[i]@[j] == wrap_dot(
                mat_view(a@),
                mat_view(b@),
                i,
                j,
                a@.len() as int,
            ),
{
    let size: usize = a.len();
    let mut result: Vec<Vec<i32>> = Vec::new();
    let mut i: usize = 0;
    while i < size
        invariant
            size == a@.len(),
            mat_square(mat_view(a@), size as nat),
            mat_square(mat_view(b@), size as nat),
            i <= size,
            result@.len() == i,
            forall|p: int| 0 <= p < i ==> (#[trigger] result@[p])@.len() == size,
            forall|p: int, q: int|
                0 <= p < i && 0 <= q < size ==> #[trigger] result@[p]@[q] == wrap_dot(
                    mat_view(a@),
                    mat_view(b@),
                    p,
                    q,
                    size as int,
                ),
        decreases size - i,
    {
        let mut row: Vec<i32> = Vec::new();
        let mut j: usize = 0;
        while j < size
            invariant
                size == a@.len(),
                mat_square(mat_view(a@), size as nat),
                mat_square(mat_view(b@), size as nat),
                i < size,
                j <= size,
                row@.len() == j,
                forall|q: int|
                    0 <= q < j ==> #[trigger] row@[q] == wrap_dot(mat_view(a@), mat_view(b@), i as int, q, size as int),
            decreases size - j,
        {
            let mut acc: i32 = 0;
            let mut k: usize = 0;
            while k < size
                invariant
                    size == a@.len(),
                    mat_square(mat_view(a@), size as nat),
                    mat_square(mat_view(b@), size as nat),
                    i < size,
                    j < size,
                    k <= size,
                    acc == wrap_dot(mat_view(a@), mat_view(b@), i as int, j as int, k as int),
                decreases size - k,
            {
                proof {
                    assert(mat_view(a@)[i as int] == a@[i as int]@);
                    assert(mat_view(b@)[k as int] == b@[k as int]@);
                }
                let aik = a[i][k];
                let bkj = b[k][j];
                acc = acc.wrapping_add(aik.wrapping_mul(bkj));
                k += 1;
            }
            row.push(acc);
            j += 1;
        }
        result.push(row);
        i += 1;
    }
    result
}

} // verus!
