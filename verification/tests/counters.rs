// The count replays: every executed statement of a fault-free run counted
// once, to size the window in which faults can be scheduled.

use fault_injection::fault_env::Data;
use fault_injection::hardened::{
    run_for_count_bubble_sort, run_for_count_matrix_mul, run_for_count_selection_sort,
};

#[test]
fn test_selection_count_small() {
    // one pass, one comparison hit, one swap
    assert_eq!(run_for_count_selection_sort(Data::Vector(vec![2, 1])), 13);
    // one pass, no hit
    assert_eq!(run_for_count_selection_sort(Data::Vector(vec![1, 2])), 12);
    // a single element never enters the pass loop
    assert_eq!(run_for_count_selection_sort(Data::Vector(vec![7])), 5);
}

#[test]
fn test_bubble_count_small() {
    // first pass swaps, second pass confirms order
    assert_eq!(run_for_count_bubble_sort(Data::Vector(vec![2, 1])), 15);
    // already ordered: one pass, early exit
    assert_eq!(run_for_count_bubble_sort(Data::Vector(vec![1, 2])), 8);
    assert_eq!(run_for_count_bubble_sort(Data::Vector(Vec::new())), 2);
}

#[test]
fn test_matrix_count_closed_form() {
    let a = vec![vec![1, 0], vec![0, 1]];
    let b = vec![vec![1, 2], vec![3, 4]];
    // 3 + 3n + 3n^2 + 2n^3 with n = 2
    assert_eq!(run_for_count_matrix_mul(Data::Matrices(a, b), 2), 37);

    let a3 = vec![vec![1, 0, 0], vec![0, 1, 0], vec![0, 0, 1]];
    let b3 = vec![vec![1, 2, 3], vec![4, 5, 6], vec![7, 8, 9]];
    assert_eq!(run_for_count_matrix_mul(Data::Matrices(a3, b3), 3), 93);
}
