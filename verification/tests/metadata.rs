// The metadata model around the engine: type sizes, analysis records, the
// data enum and the loaded input.

use fault_injection::fault_env::Data;
use fault_injection::fault_list_manager::static_analysis::{type_size, ResultAnalysis, Variable};
use fault_injection::fault_list_manager::{DimData, FaultListEntry};
use fault_injection::input_data::InputData;

#[test]
fn test_type_size_bindings() {
    assert_eq!(type_size("i8"), "1");
    assert_eq!(type_size("u8"), "1");
    assert_eq!(type_size("bool"), "1");
    assert_eq!(type_size("i16"), "2");
    assert_eq!(type_size("i32"), "4");
    assert_eq!(type_size("u32"), "4");
    assert_eq!(type_size("usize"), "4");
    assert_eq!(type_size("isize"), "4");
    assert_eq!(type_size("f32"), "4");
    assert_eq!(type_size("i64"), "8");
    assert_eq!(type_size("u64"), "8");
    assert_eq!(type_size("f64"), "8");
    assert_eq!(type_size("Vec < i32 >"), "4*len");
    assert_eq!(type_size("Vec < Vec < i32 > >"), "4*nR*nC");
    assert_eq!(type_size("String"), "unknown");
}

#[test]
fn test_analysis_record() {
    let r = ResultAnalysis {
        num_inst: 14,
        vars: vec![
            Variable {
                name: "vet".to_string(),
                ty: "Vec < i32 >".to_string(),
                size: type_size("Vec < i32 >"),
                start: 1,
            },
            Variable { name: "n".to_string(), ty: "usize".to_string(), size: type_size("usize"), start: 1 },
        ],
    };
    assert_eq!(r.num_inst, 14);
    assert_eq!(r.vars.len(), 2);
    assert_eq!(r.vars[1].size, "4");
}

#[test]
fn test_data_conversions() {
    let d: Data<i32> = Data::from(vec![4, 5]);
    assert_eq!(d.into_vector(), vec![4, 5]);

    let m = Data::Matrices(vec![vec![1, 2], vec![3, 4]], vec![vec![5, 6], vec![7, 8]]);
    let (a, b) = m.into_matrices();
    assert_eq!(a[1][0], 3);
    assert_eq!(b[0][1], 6);
}

#[test]
fn test_input_data() {
    let input = InputData {
        vector: vec![9, 8, 7],
        matrix_size: 2,
        matrix1: vec![vec![1, 0], vec![0, 1]],
        matrix2: vec![vec![2, 0], vec![0, 2]],
    };
    match input.into_data("vector") {
        Data::Vector(v) => assert_eq!(v, vec![9, 8, 7]),
        Data::Matrices(_, _) => panic!("expected the vector variant"),
    }
    match input.into_data("matrices") {
        Data::Matrices(a, b) => {
            assert_eq!(a, vec![vec![1, 0], vec![0, 1]]);
            assert_eq!(b, vec![vec![2, 0], vec![0, 2]]);
        },
        Data::Vector(_) => panic!("expected the matrices variant"),
    }
    match input.into_dimdata("vector") {
        DimData::Vector(n) => assert_eq!(n, 3),
        DimData::Matrices(_) => panic!("expected the vector variant"),
    }
    match input.into_dimdata("matrices") {
        DimData::Matrices((r, c)) => {
            assert_eq!(r, 2);
            assert_eq!(c, 2);
        },
        DimData::Vector(_) => panic!("expected the matrices variant"),
    }
}

#[test]
fn test_fault_list_entry_fields() {
    let e = FaultListEntry { var: "a[2][3]".to_string(), time: 17, flipped_bit: 4 };
    assert_eq!(e.var, "a[2][3]");
    assert_eq!(e.time, 17);
    assert_eq!(e.flipped_bit, 4);
}
