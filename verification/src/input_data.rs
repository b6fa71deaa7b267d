//! The batch input as the operator supplies it: one data vector for the
//! sorting kernels, and two matrices (with their common size) for the
//! multiplication kernel.

use crate::fault_env::Data;
use crate::fault_list_manager::DimData;
use crate::strutil::str_eq;
use vstd::prelude::*;

verus! {

broadcast use vstd::string::group_string_axioms;

/// The two data-kind names are distinct requests.
proof fn lemma_vector_ne_matrices()
    ensures
        "vector"@ != "matrices"@,
{
    reveal_strlit("vector");
    reveal_strlit("matrices");
    assert("vector"@.len() == 6);
    assert("matrices"@.len() == 8);
}

/// One loaded data set.
#[derive(Debug)]
pub struct InputData {
    pub vector: Vec<i32>,
    pub matrix_size: usize,
    pub matrix1: Vec<Vec<i32>>,
    pub matrix2: Vec<Vec<i32>>,
}

impl InputData {
    /// The batch data of the requested kind: `"vector"` or `"matrices"`.
    pub fn into_data(&self, ty: &str) -> (r: Data<i32>)
        requires
            ty@ == "vector"@ || ty@ == "matrices"@,
        ensures
            ty@ == "vector"@ ==> r is Vector && r->Vector_0@ == self.vector@,
            ty@ == "matrices"@ ==> r is Matrices && r->Matrices_0@.len() == self.matrix1@.len()
                && r->Matrices_1@.len() == self.matrix2@.len() && (forall|i: int|
                0 <= i < self.matrix1@.len() ==> (#[trigger] r->Matrices_0@[i])@
                    == self.matrix1@[i]@) && (forall|i: int|
                0 <= i < self.matrix2@.len() ==> (#[trigger] r->Matrices_1@[i])@
                    == self.matrix2@[i]@),
    {
        proof {
            lemma_vector_ne_matrices();
        }
        if str_eq(ty, "vector") {
            Data::Vector(clone_vec(&self.vector))
        } else {
            Data::Matrices(clone_mat(&self.matrix1), clone_mat(&self.matrix2))
        }
    }

    /// The dimensions of the requested kind, for fault-list sampling.
    pub fn into_dimdata(&self, ty: &str) -> (r: DimData)
        requires
            ty@ == "vector"@ || ty@ == "matrices"@,
        ensures
            ty@ == "vector"@ ==> r is Vector && r->Vector_0 == self.vector@.len(),
            ty@ == "matrices"@ ==> r is Matrices && r->Matrices_0.0 == self.matrix1@.len()
                && r->Matrices_0.1 == self.matrix2@.len(),
    {
        proof {
            lemma_vector_ne_matrices();
        }
        if str_eq(ty, "vector") {
            DimData::Vector(self.vector.len())
        } else {
            DimData::Matrices((self.matrix1.len(), self.matrix2.len()))
        }
    }
}

/// Copies a plain vector.
fn clone_vec(v: &Vec<i32>) -> (r: Vec<i32>)
    ensures
        r@ == v@,
{
    let mut r: Vec<i32> = Vec::new();
    let mut k: usize = 0;
    while k < v.len()
        invariant
            k <= v@.len(),
            r@ == v@.subrange(0, k as int),
        decreases v@.len() - k,
    {
        r.push(v[k]);
        k += 1;
    }
    proof {
        assert(v@.subrange(0, v@.len() as int) =~= v@);
    }
    r
}

/// Copies a plain matrix.
fn clone_mat(m: &Vec<Vec<i32>>) -> (r: Vec<Vec<i32>>)
    ensures
        r@.len() == m@.len(),
        forall|i: int| 0 <= i < m@.len() ==> (#[trigger] r@[i])@ == m@[i]@,
{
    let mut r: Vec<Vec<i32>> = Vec::new();
    let mut k: usize = 0;
    while k < m.len()
        invariant
            k <= m@.len(),
            r@.len() == k,
            forall|i: int| 0 <= i < k ==> (#[trigger] r@[i])@ == m@[i]@,
        decreases m@.len() - k,
    {
        r.push(clone_vec(&m[k]));
        k += 1;
    }
    r
}

} // verus!
