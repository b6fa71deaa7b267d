// The outcome aggregator and its tally type.

use fault_injection::analyzer::{classify_outcomes, Faults};
use fault_injection::fault_list_manager::FaultListEntry;
use fault_injection::hardened::{Hardened, IncoherenceError};
use fault_injection::injector::TestResult;

fn sample_faults() -> Faults {
    Faults {
        n_silent_fault: 1,
        n_assign_fault: 2,
        n_mul_fault: 3,
        n_inner_fault: 3,
        n_sub_fault: 8,
        n_add_fault: 5,
        n_indexmut_fault: 6,
        n_index_fault: 7,
        n_ord_fault: 8,
        n_partialord_fault: 9,
        n_partialeq_fault: 10,
        n_fatal_fault: 22,
        total_fault: 55,
    }
}

#[test]
fn try_iterator_faults() {
    let faults = sample_faults();
    let mut it = faults.iter();
    while let Some((name, value)) = it.next() {
        println!("{}: {}", name, value);
    }
}

#[test]
fn test_trivial() {
    assert_eq!(2, 2);
}

// The eight rendered tallies come out under their names, in order.
#[test]
fn test_iterator_entries() {
    let faults = sample_faults();
    let mut it = faults.iter();
    assert_eq!(it.next(), Some(("n_silent_fault".to_string(), 1)));
    assert_eq!(it.next(), Some(("n_assign_fault".to_string(), 2)));
    assert_eq!(it.next(), Some(("n_inner_fault".to_string(), 3)));
    assert_eq!(it.next(), Some(("n_sub_fail".to_string(), 8)));
    assert_eq!(it.next(), Some(("n_mul_fault".to_string(), 3)));
    assert_eq!(it.next(), Some(("n_add_fault".to_string(), 5)));
    assert_eq!(it.next(), Some(("n_index_fault".to_string(), 7)));
    assert_eq!(it.next(), Some(("n_partialord_fault".to_string(), 9)));
    assert_eq!(it.next(), None);
    assert_eq!(it.next(), None);
}

fn entry(var: &str, time: usize, bit: usize) -> FaultListEntry {
    FaultListEntry { var: var.to_string(), time, flipped_bit: bit }
}

fn outcomes() -> Vec<TestResult> {
    vec![
        // silent, output equal to the reference
        TestResult::new(entry("n", 100, 0), Ok(Hardened::from_vec(vec![1, 2, 3]))),
        // silent, output differs from the reference: fatal
        TestResult::new(entry("vec[0]", 9, 0), Ok(Hardened::from_vec(vec![0, 2, 3]))),
        // detected faults
        TestResult::new(entry("min", 8, 0), Err(IncoherenceError::IndexFail)),
        TestResult::new(entry("n", 1, 0), Err(IncoherenceError::PartialOrdFail)),
        TestResult::new(entry("i", 5, 0), Err(IncoherenceError::AddFail)),
    ]
}

// Each outcome lands in its bucket; fatal means silent-but-wrong.
#[test]
fn test_classification_buckets() {
    let reference = vec![1, 2, 3];
    let f = classify_outcomes(&outcomes(), &reference);
    assert_eq!(f.total_fault, 5);
    assert_eq!(f.n_silent_fault, 2);
    assert_eq!(f.n_fatal_fault, 1);
    assert_eq!(f.n_index_fault, 1);
    assert_eq!(f.n_partialord_fault, 1);
    assert_eq!(f.n_add_fault, 1);
    assert_eq!(f.n_assign_fault, 0);
    assert_eq!(f.n_ord_fault, 0);
}

// Aggregating the same stream twice yields identical tallies, and so does
// any reordering of the stream.
#[test]
fn test_classification_idempotent_and_order_independent() {
    let reference = vec![1, 2, 3];
    let once = classify_outcomes(&outcomes(), &reference);
    let twice = classify_outcomes(&outcomes(), &reference);
    assert_eq!(once, twice);

    let mut reversed = outcomes();
    reversed.reverse();
    let backwards = classify_outcomes(&reversed, &reference);
    assert_eq!(once, backwards);
}

// The batch invariant: silent plus the per-tag counts is the total.
#[test]
fn test_batch_invariant() {
    let reference = vec![1, 2, 3];
    let f = classify_outcomes(&outcomes(), &reference);
    let tag_sum = f.n_assign_fault + f.n_inner_fault + f.n_sub_fault + f.n_mul_fault
        + f.n_add_fault + f.n_indexmut_fault + f.n_index_fault + f.n_ord_fault
        + f.n_partialord_fault + f.n_partialeq_fault;
    assert_eq!(f.n_silent_fault + tag_sum, f.total_fault);
    assert!(f.n_fatal_fault <= f.n_silent_fault);
}

// The empty batch gives the empty tally.
#[test]
fn test_empty_batch() {
    let f = classify_outcomes(&Vec::new(), &vec![1, 2]);
    assert_eq!(f, Faults::new());
}
