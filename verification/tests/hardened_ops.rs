// The redundant-value operations: coherent arithmetic succeeds with the
// plain result, any touch of an incoherent operand fails with its tag.

use fault_injection::hardened::{Hardened, IncoherenceError};
use fault_injection::hardened::{vec_read, vec_swap};

#[test]
fn test_add_ok() {
    let a: Hardened<i32> = Hardened::from(3);
    let b: Hardened<i32> = Hardened::from(2);
    let c = a.add(b);
    assert_eq!(c.is_ok(), true);
    assert_eq!(c.unwrap().inner().unwrap(), 5);
}

#[test]
fn test_add_err() {
    let mut a: Hardened<i32> = Hardened::from(3);
    let b: Hardened<i32> = Hardened::from(2);
    a.cp1 = a.cp1 & 0; // injection
    let c = a.add(b);
    assert!(c.is_err());
}

#[test]
fn test_ord() {
    let a: Hardened<i32> = Hardened::from(5);
    let b: Hardened<i32> = Hardened::from(4);
    assert!(b.checked_lt(&a).unwrap());
}

#[test]
fn test_add_with_usize() {
    let a = Hardened::from(4usize);
    let ris = a.add(5);
    assert!(ris.is_ok());
    assert_eq!(ris.unwrap().inner().unwrap(), 9);
}

#[test]
fn test_from_mat() {
    let input_matrix = vec![vec![1, 2, 3], vec![4, 5, 6], vec![7, 8, 9]];

    let expected_output = vec![
        vec![Hardened::from(1), Hardened::from(2), Hardened::from(3)],
        vec![Hardened::from(4), Hardened::from(5), Hardened::from(6)],
        vec![Hardened::from(7), Hardened::from(8), Hardened::from(9)],
    ];

    let output_matrix = Hardened::from_mat(input_matrix);

    assert_eq!(output_matrix, expected_output);
}

#[test]
fn test_matrix() {
    let mat = vec![vec![1, 2, 3], vec![4, 5, 6], vec![7, 8, 9]];

    assert_eq!(4, mat[1][0]);
}

#[test]
#[allow(non_snake_case)]
fn test_indexMut_Hardened_for_injection() {
    let mut myhd: Hardened<i32> = Hardened::from(3);
    myhd.cp1 = 2;
    assert_eq!(myhd.incoherent(), true);
}

#[test]
#[allow(non_snake_case)]
fn test_index_Hardened_for_injection() {
    let myhd = Hardened::from(2);
    assert_eq!(myhd.cp1, 2);
}

#[test]
fn test_from_mat_hardened() {
    let input_matrix = vec![vec![1, 2, 3], vec![4, 5, 6], vec![7, 8, 9]];

    let expected_output = vec![
        vec![Hardened::from(1), Hardened::from(2), Hardened::from(3)],
        vec![Hardened::from(4), Hardened::from(5), Hardened::from(6)],
        vec![Hardened::from(7), Hardened::from(8), Hardened::from(9)],
    ];

    let output_matrix = Hardened::from_mat(input_matrix);
    assert_eq!(output_matrix, expected_output);
}

// Coherent pairs: sub and mul return the plain result, as add does.
#[test]
fn test_sub_mul_ok() {
    let a: Hardened<i32> = Hardened::from(7);
    let b: Hardened<i32> = Hardened::from(3);
    assert_eq!(a.sub(b).unwrap().inner().unwrap(), 4);
    assert_eq!(a.mul(b).unwrap().inner().unwrap(), 21);
}

// Arithmetic wraps on overflow, on both copies alike.
#[test]
fn test_add_wraps() {
    let a = Hardened::from(i32::MAX);
    let b: Hardened<i32> = Hardened::from(1);
    let c = a.add(b).unwrap();
    assert_eq!(c.cp1, i32::MIN);
    assert_eq!(c.cp2, i32::MIN);
}

// Every operation touching an incoherent pair fails with its own tag and
// mutates nothing else.
#[test]
fn test_incoherent_operand_tags() {
    let mut bad: Hardened<i32> = Hardened::from(3);
    bad.cp1 = 7; // injection: copies now disagree
    let good: Hardened<i32> = Hardened::from(1);

    assert_eq!(bad.inner(), Err(IncoherenceError::InnerFail));
    assert_eq!(bad.add(good), Err(IncoherenceError::AddFail));
    assert_eq!(good.add(bad), Err(IncoherenceError::AddFail));
    assert_eq!(bad.sub(good), Err(IncoherenceError::SubFail));
    assert_eq!(bad.mul(good), Err(IncoherenceError::MulFail));
    assert_eq!(bad.checked_lt(&good), Err(IncoherenceError::PartialOrdFail));
    assert_eq!(good.checked_lt(&bad), Err(IncoherenceError::PartialOrdFail));
    assert_eq!(bad.checked_eq(&good), Err(IncoherenceError::PartialEqFail));

    // assigning from an incoherent source fails and leaves the target as it was
    let mut dst: Hardened<i32> = Hardened::from(9);
    assert_eq!(dst.assign(bad), Err(IncoherenceError::AssignFail));
    assert_eq!(dst.cp1, 9);
    assert_eq!(dst.cp2, 9);

    // assigning a coherent value over a corrupted target heals it silently
    let mut corrupted: Hardened<i32> = Hardened::from(5);
    corrupted.cp1 = 4;
    assert!(corrupted.assign(good).is_ok());
    assert_eq!(corrupted.inner().unwrap(), 1);
}

// Indexing through a redundant index verifies the index first.
#[test]
fn test_checked_indexing() {
    let v = Hardened::from_vec(vec![10, 20, 30]);
    let idx = Hardened::from(1usize);
    assert_eq!(vec_read(&v, idx).unwrap().inner().unwrap(), 20);

    let mut bad_idx = Hardened::from(1usize);
    bad_idx.cp1 = 2;
    assert_eq!(vec_read(&v, bad_idx), Err(IncoherenceError::IndexFail));

    let oob = Hardened::from(9usize);
    assert_eq!(vec_read(&v, oob), Err(IncoherenceError::IndexFail));

    let mut w = Hardened::from_vec(vec![1, 2]);
    assert!(vec_swap(&mut w, 0, 1).is_ok());
    assert_eq!(w[0].inner().unwrap(), 2);
    assert_eq!(w[1].inner().unwrap(), 1);
    assert_eq!(vec_swap(&mut w, 0, 5), Err(IncoherenceError::IndexMutFail));
}
