// The sorting kernels, hardened and plain.

use fault_injection::fault_list_manager::file_fault_list::bubble_sort::bubble_sort as plain_bubble_sort;
use fault_injection::fault_list_manager::file_fault_list::selection_sort::selection_sort as plain_selection_sort;
use fault_injection::hardened::bubble_sort_hardened::bubble_sort;
use fault_injection::hardened::selection_sort_hardened::selection_sort;
use fault_injection::hardened::Hardened;

#[test]
fn test_sort() {
    let mut myvec = Hardened::from_vec(vec![31, 10, 15, 6, 4, 3]);
    assert!(selection_sort(&mut myvec).is_ok());
    let myvec2 = Hardened::from_vec(vec![3, 4, 6, 10, 15, 31]);
    assert_eq!(myvec, myvec2);
}

#[test]
fn test_sort_hardened() {
    // a hardened vector, out of order
    let mut myvec = Hardened::from_vec(vec![31, 10, 15, 6, 4, 3]);

    // sorting must succeed on coherent input
    assert!(selection_sort(&mut myvec).is_ok());

    // and give the expected order
    let myvec_sorted = Hardened::from_vec(vec![3, 4, 6, 10, 15, 31]);

    assert_eq!(myvec, myvec_sorted);
}

#[test]
fn test_bubble_sort_hardened() {
    let mut vec = vec![
        Hardened::from(31),
        Hardened::from(10),
        Hardened::from(15),
        Hardened::from(6),
        Hardened::from(4),
        Hardened::from(3),
    ];

    assert!(bubble_sort(&mut vec).is_ok());

    let sorted_vec = vec![
        Hardened::from(3),
        Hardened::from(4),
        Hardened::from(6),
        Hardened::from(10),
        Hardened::from(15),
        Hardened::from(31),
    ];

    assert_eq!(vec, sorted_vec);
}

// The plain reference kernels give the same orders.
#[test]
fn test_plain_sorts() {
    assert_eq!(plain_selection_sort(vec![31, 10, 15, 6, 4, 3]), vec![3, 4, 6, 10, 15, 31]);
    assert_eq!(plain_bubble_sort(vec![5, 3, 4, 1, 2]), vec![1, 2, 3, 4, 5]);
    assert_eq!(plain_bubble_sort(Vec::new()), Vec::<i32>::new());
    assert_eq!(plain_bubble_sort(vec![1, 2, 3]), vec![1, 2, 3]);
}

// A corrupted element is detected by the first comparison that reads it.
#[test]
fn test_sort_detects_corruption() {
    let mut v = Hardened::from_vec(vec![3, 1, 2]);
    v[1].cp1 = 17;
    assert!(selection_sort(&mut v).is_err());

    let mut w = Hardened::from_vec(vec![3, 1, 2]);
    w[0].cp1 = 17;
    assert!(bubble_sort(&mut w).is_err());
}
