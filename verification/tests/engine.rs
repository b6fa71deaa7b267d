// The fault-injection engine end to end: trials, timing, classification
// and configuration errors.

use fault_injection::fault_env::{fault_injection_env, ConfigError, Data};
use fault_injection::fault_list_manager::FaultListEntry;
use fault_injection::injector::algorithms::runner_selection_sort;
use fault_injection::injector::{
    resolve_bubble_target, resolve_matrix_target, resolve_selection_target, BubbleTarget,
    MatrixTarget, SelectionSortVariables, SelectionTarget,
};

fn entry(var: &str, time: usize, bit: usize) -> FaultListEntry {
    FaultListEntry { var: var.to_string(), time, flipped_bit: bit }
}

// A fault scheduled past the end of the run is never applied: the trial is
// silent and its output equals the fault-free reference.
#[test]
fn test_fault_after_last_tick_is_silent() {
    let data = Data::Vector(vec![31, 10, 15, 6, 4, 3]);
    let list = vec![entry("vec[2]", 100000, 0)];
    let f = fault_injection_env(&list, "sel_sort", &data).unwrap();
    assert_eq!(f.total_fault, 1);
    assert_eq!(f.n_silent_fault, 1);
    assert_eq!(f.n_fatal_fault, 0);
}

// Flipping bit 0 of the loop bound `n` at tick 1 of bubble sort on
// [5,3,4,1,2]: a detected index/ordering failure or a silent-but-wrong
// result, never a crash outside the taxonomy.
#[test]
fn test_bubble_bound_corruption_classified() {
    let data = Data::Vector(vec![5, 3, 4, 1, 2]);
    let list = vec![entry("n", 1, 0)];
    let f = fault_injection_env(&list, "bubble_sort", &data).unwrap();
    assert_eq!(f.total_fault, 1);
    let detected = f.n_index_fault + f.n_indexmut_fault + f.n_ord_fault + f.n_partialord_fault;
    assert!(detected == 1 || f.n_fatal_fault == 1);
}

// Striking vec[5] at the very last tick of selection sort on
// [31,10,15,6,4,3]: the corrupted value is never read again, so the trial
// is silent but its output differs from the reference: fatal.
#[test]
fn test_late_element_strike_is_fatal() {
    // probe the run length with a fault that never fires
    let mut probe = SelectionSortVariables::new(vec![31, 10, 15, 6, 4, 3]);
    let (res, total_ticks) = runner_selection_sort(&mut probe, &SelectionTarget::N, 0, 0);
    assert!(res.is_ok());
    assert!(total_ticks > 0);

    let data = Data::Vector(vec![31, 10, 15, 6, 4, 3]);
    let list = vec![entry("vec[5]", total_ticks, 0)];
    let f = fault_injection_env(&list, "sel_sort", &data).unwrap();
    assert_eq!(f.n_silent_fault, 1);
    assert_eq!(f.n_fatal_fault, 1);
}

// Striking `min` at the tick just before its read-then-compare use: the
// next indexed read sees the incoherent index, a detection tag, not
// silence.
#[test]
fn test_min_strike_before_use_is_detected() {
    let data = Data::Vector(vec![31, 10, 15, 6, 4, 3]);
    // ticks 1..=4 initialize, 5..=7 open the outer pass, 8 precedes the
    // first comparison that indexes by `min`
    let list = vec![entry("min", 8, 0)];
    let f = fault_injection_env(&list, "sel_sort", &data).unwrap();
    assert_eq!(f.n_silent_fault, 0);
    assert_eq!(f.n_index_fault, 1);
}

// The matrix kernel's size variable, negated at tick 1, is caught by the
// first checked read of it.
#[test]
fn test_matrix_size_strike_detected() {
    let a = vec![vec![1, 0], vec![0, 1]];
    let b = vec![vec![1, 2], vec![3, 4]];
    let data = Data::Matrices(a, b);
    let list = vec![entry("size", 1, 0)];
    let f = fault_injection_env(&list, "matrix_multiplication", &data).unwrap();
    assert_eq!(f.n_inner_fault, 1);
}

// A matrix trial whose fault never fires is silent with the right product.
#[test]
fn test_matrix_silent_trial() {
    let a = vec![vec![1, 0], vec![0, 1]];
    let b = vec![vec![1, 2], vec![3, 4]];
    let data = Data::Matrices(a, b);
    let list = vec![entry("a[0][0]", 100000, 0), entry("b[1][1]", 3, 1)];
    let f = fault_injection_env(&list, "matrix_multiplication", &data).unwrap();
    assert_eq!(f.total_fault, 2);
    assert_eq!(f.n_silent_fault + f.n_assign_fault + f.n_inner_fault + f.n_sub_fault
        + f.n_mul_fault + f.n_add_fault + f.n_indexmut_fault + f.n_index_fault + f.n_ord_fault
        + f.n_partialord_fault + f.n_partialeq_fault, 2);
}

// Identical batches tally identically, whatever the order of the entries.
#[test]
fn test_batch_order_independent() {
    let data = Data::Vector(vec![31, 10, 15, 6, 4, 3]);
    let e1 = entry("min", 8, 0);
    let e2 = entry("n", 1, 0);
    let e3 = entry("vec[3]", 20, 2);
    let one = fault_injection_env(&vec![e1.clone(), e2.clone(), e3.clone()], "sel_sort", &data)
        .unwrap();
    let other = fault_injection_env(&vec![e3, e2, e1], "sel_sort", &data).unwrap();
    assert_eq!(one, other);
    assert_eq!(one.total_fault, 3);
}

// Configuration errors abort the batch before any trial, each on its own
// condition.
#[test]
fn test_configuration_errors() {
    let data = Data::Vector(vec![1, 2, 3]);
    let ok = vec![entry("n", 1, 0)];
    assert_eq!(
        fault_injection_env(&ok, "quick_sort", &data),
        Err(ConfigError::UnknownTarget)
    );
    assert_eq!(
        fault_injection_env(&ok, "matrix_multiplication", &data),
        Err(ConfigError::WrongDataShape)
    );
    assert_eq!(
        fault_injection_env(&vec![entry("acc", 1, 0)], "sel_sort", &data),
        Err(ConfigError::UnresolvableVariablePath)
    );
    assert_eq!(
        fault_injection_env(&vec![entry("vec[7]", 1, 0)], "sel_sort", &data),
        Err(ConfigError::UnresolvableVariablePath)
    );
    assert_eq!(
        fault_injection_env(&vec![entry("vec[abc]", 1, 0)], "sel_sort", &data),
        Err(ConfigError::UnresolvableVariablePath)
    );
    assert_eq!(
        fault_injection_env(&vec![entry("n", 0, 0)], "sel_sort", &data),
        Err(ConfigError::InvalidTime)
    );
    assert_eq!(
        fault_injection_env(&vec![entry("n", 1, 40)], "sel_sort", &data),
        Err(ConfigError::InvalidBit)
    );
    assert_eq!(
        fault_injection_env(&ok, "sel_sort", &Data::Vector(Vec::new())),
        Err(ConfigError::WrongDataShape)
    );
    let ragged = Data::Matrices(vec![vec![1, 2], vec![3]], vec![vec![1, 2], vec![3, 4]]);
    assert_eq!(
        fault_injection_env(&ok, "matrix_multiplication", &ragged),
        Err(ConfigError::WrongDataShape)
    );
}

// Variable paths resolve exactly against each algorithm's variable set.
#[test]
fn test_path_resolution() {
    assert_eq!(resolve_selection_target("min", 6), Some(SelectionTarget::Min));
    assert_eq!(resolve_selection_target("vec[5]", 6), Some(SelectionTarget::VecElem(5)));
    assert_eq!(resolve_selection_target("vec[6]", 6), None);
    assert_eq!(resolve_selection_target("vec[05]", 6), Some(SelectionTarget::VecElem(5)));
    assert_eq!(resolve_selection_target("vec[]", 6), None);
    assert_eq!(resolve_selection_target("vec[2]x", 6), None);
    assert_eq!(resolve_selection_target("swapped", 6), None);
    assert_eq!(resolve_bubble_target("swapped", 6), Some(BubbleTarget::Swapped));
    assert_eq!(resolve_bubble_target("vet[0]", 6), Some(BubbleTarget::VetElem(0)));
    assert_eq!(resolve_bubble_target("vec[0]", 6), None);
    assert_eq!(resolve_matrix_target("acc", 4), Some(MatrixTarget::Acc));
    assert_eq!(resolve_matrix_target("a[1][3]", 4), Some(MatrixTarget::ACell(1, 3)));
    assert_eq!(resolve_matrix_target("result[0][0]", 4), Some(MatrixTarget::ResultCell(0, 0)));
    assert_eq!(resolve_matrix_target("a[4][0]", 4), None);
    assert_eq!(resolve_matrix_target("a[1]", 4), None);
}
