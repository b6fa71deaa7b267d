// The matrix-multiplication kernels, hardened and plain.

use fault_injection::fault_list_manager::file_fault_list::matrix_multiplication::matrix_multiplication as plain_matrix_multiplication;
use fault_injection::hardened::matrix_multiplication_hardened::matrix_multiplication;
use fault_injection::hardened::Hardened;

#[test]
fn test_matrix_multiplication_hardened_simple_5x5() {
    // identity (5x5)
    let a = Hardened::from_mat(vec![
        vec![1, 0, 0, 0, 0],
        vec![0, 1, 0, 0, 0],
        vec![0, 0, 1, 0, 0],
        vec![0, 0, 0, 1, 0],
        vec![0, 0, 0, 0, 1],
    ]);

    let b = Hardened::from_mat(vec![
        vec![1, 2, 3, 4, 5],
        vec![6, 7, 8, 9, 10],
        vec![11, 12, 13, 14, 15],
        vec![16, 17, 18, 19, 20],
        vec![21, 22, 23, 24, 25],
    ]);

    // identity times B must be B itself
    let expected_output = Hardened::from_mat(vec![
        vec![1, 2, 3, 4, 5],
        vec![6, 7, 8, 9, 10],
        vec![11, 12, 13, 14, 15],
        vec![16, 17, 18, 19, 20],
        vec![21, 22, 23, 24, 25],
    ]);

    match matrix_multiplication(&a, &b) {
        Ok(result) => assert_eq!(result, expected_output),
        Err(e) => panic!("Errore di incoerenza: {:?}", e),
    }
}

#[test]
fn test_matrix_multiplication() {
    let a = vec![
        vec![Hardened::from(1), Hardened::from(2), Hardened::from(3)],
        vec![Hardened::from(4), Hardened::from(5), Hardened::from(6)],
        vec![Hardened::from(7), Hardened::from(8), Hardened::from(9)],
    ];

    let b = vec![
        vec![Hardened::from(9), Hardened::from(8), Hardened::from(7)],
        vec![Hardened::from(6), Hardened::from(5), Hardened::from(4)],
        vec![Hardened::from(3), Hardened::from(2), Hardened::from(1)],
    ];

    let expected = vec![
        vec![Hardened::from(30), Hardened::from(24), Hardened::from(18)],
        vec![Hardened::from(84), Hardened::from(69), Hardened::from(54)],
        vec![Hardened::from(138), Hardened::from(114), Hardened::from(90)],
    ];

    let result = matrix_multiplication(&a, &b);

    assert!(result.is_ok());

    assert_eq!(result.unwrap(), expected);
}

// The plain reference kernel computes the same product.
#[test]
fn test_plain_matrix_multiplication() {
    let a = vec![vec![1, 2, 3], vec![4, 5, 6], vec![7, 8, 9]];
    let b = vec![vec![9, 8, 7], vec![6, 5, 4], vec![3, 2, 1]];
    let expected = vec![vec![30, 24, 18], vec![84, 69, 54], vec![138, 114, 90]];
    assert_eq!(plain_matrix_multiplication(a, b), expected);
}

// A corrupted operand cell is caught by the multiplication that reads it.
#[test]
fn test_matrix_multiplication_detects_corruption() {
    let a = Hardened::from_mat(vec![vec![1, 0], vec![0, 1]]);
    let mut b = Hardened::from_mat(vec![vec![1, 2], vec![3, 4]]);
    b[0][0].cp2 = 2;
    assert!(matrix_multiplication(&a, &b).is_err());
}
