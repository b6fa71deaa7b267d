//! Square-matrix multiplication over redundant values.  Reads go through
//! checked indexing, arithmetic through the checked wrapping operations, and
//! writes through checked assignment, so corruption anywhere in the operands
//! or the loop variables is caught at its first use.

use crate::hardened::{
    all_coherent, hmat_square, mat_all_coherent, mat_read, mat_values_of, mat_write, Hardened,
    IncoherenceError,
};
use crate::specs::wrap_dot;
use vstd::prelude::*;

verus! {

/// Multiplies two hardened `n` by `n` matrices.
///
/// On square, fully coherent input the product always succeeds; entry
/// `(i, j)` of the result carries the wrapped dot product of row `i` of `a`
/// and column `j` of `b`, exactly as the plain reference kernel computes it.
pub fn matrix_multiplication(a: &Vec<Vec<Hardened<i32>>>, b: &Vec<Vec<Hardened<i32>>>) -> (r:
    Result<Vec<Vec<Hardened<i32>>>, IncoherenceError>)
    ensures
        hmat_square(a@, a@.len() as nat) && hmat_square(b@, a@.len() as nat) && mat_all_coherent(
            a@,
        ) && mat_all_coherent(b@) ==> {
            &&& r is Ok
            &&& r->Ok_0@.len() == a@.len()
            &&& forall|i: int| 0 <= i < a@.len() ==> (#[trigger] r->Ok_0@[i])@.len() == a@.len()
            &&& mat_all_coherent(r->Ok_0@)
            &&& forall|i: int, j: int|
                0 <= i < a@.len() && 0 <= j < a@.len() ==> (#[trigger] r->Ok_0@[i]@[j]).cp1
                    == wrap_dot(mat_values_of(a@), mat_values_of(b@), i, j, a@.len() as int)
        },
{
    let ghost good = hmat_square(a@, a@.len() as nat) && hmat_square(b@, a@.len() as nat)
        && mat_all_coherent(a@) && mat_all_coherent(b@);
    let ghost ga = mat_values_of(a@);
    let ghost gb = mat_values_of(b@);
    let size: Hardened<usize> = Hardened::from(a.len());
    let sz = size.inner()?;

    let mut result: Vec<Vec<Hardened<i32>>> = Vec::new();
    let mut p: usize = 0;
    while p < sz
        invariant
            p <= sz,
            result@.len() == p,
            forall|x: int| 0 <= x < p ==> (#[trigger] result@[x])@.len() == sz,
            forall|x: int| 0 <= x < p ==> all_coherent((#[trigger] result@[x])@),
        decreases sz - p,
    {
        let mut row: Vec<Hardened<i32>> = Vec::new();
        let mut q: usize = 0;
        while q < sz
            invariant
                q <= sz,
                row@.len() == q,
                all_coherent(row@),
            decreases sz - q,
        {
            row.push(Hardened::from(0i32));
            q += 1;
        }
        result.push(row);
        p += 1;
    }

    let mut i: Hardened<usize> = Hardened::from(0usize);
    let mut j: Hardened<usize> = Hardened::from(0usize);
    let mut k: Hardened<usize> = Hardened::from(0usize);

    loop
        invariant
            good == (hmat_square(a@, sz as nat) && hmat_square(b@, sz as nat)
                && mat_all_coherent(a@) && mat_all_coherent(b@)),
            ga == mat_values_of(a@),
            gb == mat_values_of(b@),
            size.coherent(),
            size.cp1 == a@.len(),
            sz == size.cp1,
            i.coherent(),
            j.coherent(),
            k.coherent(),
            i.cp1 <= sz,
            result@.len() == sz,
            forall|x: int| 0 <= x < sz ==> (#[trigger] result@[x])@.len() == sz,
            forall|x: int| 0 <= x < sz ==> all_coherent((#[trigger] result@[x])@),
            good ==> forall|x: int, y: int|
                0 <= x < i.cp1 && 0 <= y < sz ==> (#[trigger] result@[x]@[y]).cp1 == wrap_dot(
                    ga,
                    gb,
                    x,
                    y,
                    sz as int,
                ),
        ensures
            result@.len() == sz,
            forall|x: int| 0 <= x < sz ==> (#[trigger] result@[x])@.len() == sz,
            forall|x: int| 0 <= x < sz ==> all_coherent((#[trigger] result@[x])@),
            good ==> forall|x: int, y: int|
                0 <= x < sz && 0 <= y < sz ==> (#[trigger] result@[x]@[y]).cp1 == wrap_dot(
                    ga,
                    gb,
                    x,
                    y,
                    sz as int,
                ),
        decreases sz - i.cp1,
    {
        let more = i.checked_lt(&size)?;
        if !more {
            break ;
        }
        j.assign(Hardened::from(0usize))?;
        loop
            invariant
                good == (hmat_square(a@, sz as nat) && hmat_square(b@, sz as nat)
                    && mat_all_coherent(a@) && mat_all_coherent(b@)),
                ga == mat_values_of(a@),
                gb == mat_values_of(b@),
                size.coherent(),
                size.cp1 == a@.len(),
                sz == size.cp1,
                i.coherent(),
                j.coherent(),
                k.coherent(),
                i.cp1 < sz,
                j.cp1 <= sz,
                result@.len() == sz,
                forall|x: int| 0 <= x < sz ==> (#[trigger] result@[x])@.len() == sz,
                forall|x: int| 0 <= x < sz ==> all_coherent((#[trigger] result@[x])@),
                good ==> forall|x: int, y: int|
                    0 <= x < i.cp1 && 0 <= y < sz ==> (#[trigger] result@[x]@[y]).cp1 == wrap_dot(
                        ga,
                        gb,
                        x,
                        y,
                        sz as int,
                    ),
                good ==> forall|y: int|
                    0 <= y < j.cp1 ==> (#[trigger] result@[i.cp1 as int]@[y]).cp1 == wrap_dot(
                        ga,
                        gb,
                        i.cp1 as int,
                        y,
                        sz as int,
                    ),
            ensures
                size.coherent(),
                size.cp1 == a@.len(),
                sz == size.cp1,
                i.coherent(),
                i.cp1 < sz,
                j.cp1 == sz,
                result@.len() == sz,
                forall|x: int| 0 <= x < sz ==> (#[trigger] result@[x])@.len() == sz,
                forall|x: int| 0 <= x < sz ==> all_coherent((#[trigger] result@[x])@),
                good ==> forall|x: int, y: int|
                    0 <= x < i.cp1 && 0 <= y < sz ==> (#[trigger] result@[x]@[y]).cp1 == wrap_dot(
                        ga,
                        gb,
                        x,
                        y,
                        sz as int,
                    ),
                good ==> forall|y: int|
                    0 <= y < sz ==> (#[trigger] result@[i.cp1 as int]@[y]).cp1 == wrap_dot(
                        ga,
                        gb,
                        i.cp1 as int,
                        y,
                        sz as int,
                    ),
            decreases sz - j.cp1,
        {
            let more_j = j.checked_lt(&size)?;
            if !more_j {
                break ;
            }
            let mut acc: Hardened<i32> = Hardened::from(0i32);
            k.assign(Hardened::from(0usize))?;
            loop
                invariant
                    good == (hmat_square(a@, sz as nat) && hmat_square(b@, sz as nat)
                        && mat_all_coherent(a@) && mat_all_coherent(b@)),
                    ga == mat_values_of(a@),
                    gb == mat_values_of(b@),
                    size.coherent(),
                    size.cp1 == a@.len(),
                    sz == size.cp1,
                    i.coherent(),
                    j.coherent(),
                    k.coherent(),
                    acc.coherent(),
                    i.cp1 < sz,
                    j.cp1 < sz,
                    k.cp1 <= sz,
                    good ==> acc.cp1 == wrap_dot(ga, gb, i.cp1 as int, j.cp1 as int, k.cp1 as int),
                ensures
                    size.coherent(),
                    sz == size.cp1,
                    i.coherent(),
                    j.coherent(),
                    acc.coherent(),
                    i.cp1 < sz,
                    j.cp1 < sz,
                    k.cp1 == sz,
                    good ==> acc.cp1 == wrap_dot(ga, gb, i.cp1 as int, j.cp1 as int, sz as int),
                decreases sz - k.cp1,
            {
                let more_k = k.checked_lt(&size)?;
                if !more_k {
                    break ;
                }
                let aik = mat_read(a, i, k)?;
                let bkj = mat_read(b, k, j)?;
                proof {
                    if good {
                        assert(ga[i.cp1 as int][k.cp1 as int] == a@[i.cp1 as int]@[k.cp1 as int].cp1);
                        assert(gb[k.cp1 as int][j.cp1 as int] == b@[k.cp1 as int]@[j.cp1 as int].cp1);
                    }
                }
                let prod = aik.mul(bkj)?;
                let sum = acc.add(prod)?;
                acc.assign(sum)?;
                k.assign(k.add(1)?)?;
            }
            let ii = i.inner()?;
            let jj = j.inner()?;
            mat_write(&mut result, ii, jj, acc)?;
            j.assign(j.add(1)?)?;
        }
        i.assign(i.add(1)?)?;
    }
    proof {
        if good {
            assert(ga.len() == a@.len());
        }
    }
    Ok(result)
}

} // verus!
