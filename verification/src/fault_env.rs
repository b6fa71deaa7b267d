//! The batch driver: takes a fault list, a target algorithm and the input
//! data, validates the whole list up front (a configuration error aborts
//! the batch before any trial runs), then runs one independent trial per
//! entry and hands the outcomes to the aggregator.

use crate::analyzer::{classify_outcomes, tallies_consistent, Faults};
use crate::fault_list_manager::FaultListEntry;
use crate::injector::algorithms::{
    runner_bubble_sort, runner_matrix_multiplication, runner_selection_sort,
};
use crate::injector::{
    resolve_bubble_target, resolve_matrix_target, resolve_selection_target, spec_resolve_bubble,
    spec_resolve_matrix, spec_resolve_selection, BubbleSortVariables, BubbleTarget,
    MatrixMultiplicationVariables, MatrixTarget, SelectionSortVariables, SelectionTarget,
    TestResult,
};
use crate::specs::{mat_square, mat_view};
use crate::strutil::str_eq;
use vstd::prelude::*;

verus! {

/// The data a batch works on: one vector for the sorts, two matrices for
/// the multiplication.
#[derive(Debug, Clone)]
pub enum Data<T> {
    Vector(Vec<T>),
    Matrices(Vec<Vec<T>>, Vec<Vec<T>>),
}

impl<T> Data<T> {
    /// The vector variant's payload.
    pub fn into_vector(self) -> (r: Vec<T>)
        requires
            self is Vector,
        ensures
            r == self->Vector_0,
    {
        match self {
            Data::Vector(ris) => ris,
            Data::Matrices(_, _) => vstd::pervasive::unreached(),
        }
    }

    /// The matrices variant's payload.
    pub fn into_matrices(self) -> (r: (Vec<Vec<T>>, Vec<Vec<T>>))
        requires
            self is Matrices,
        ensures
            r.0 == self->Matrices_0,
            r.1 == self->Matrices_1,
    {
        match self {
            Data::Matrices(a, b) => (a, b),
            Data::Vector(_) => vstd::pervasive::unreached(),
        }
    }
}

impl<T> From<Vec<T>> for Data<T> {
    fn from(vec: Vec<T>) -> (r: Self) {
        Data::Vector(vec)
    }
}

impl<T> vstd::std_specs::convert::FromSpecImpl<Vec<T>> for Data<T> {
    open spec fn obeys_from_spec() -> bool {
        true
    }

    open spec fn from_spec(v: Vec<T>) -> Self {
        Data::Vector(v)
    }
}

/// A configuration error: detected while a batch is set up, before any
/// trial runs.  Distinct from the detected-fault outcomes of trials.
#[derive(Debug, Clone, Copy, PartialEq, Eq, Structural)]
pub enum ConfigError {
    /// The target algorithm's name is not one of the three known kernels.
    UnknownTarget,
    /// The input data's shape does not fit the target algorithm.
    WrongDataShape,
    /// A fault-list entry names a variable path the target cannot resolve.
    UnresolvableVariablePath,
    /// A fault-list entry schedules a tick before the first one.
    InvalidTime,
    /// A fault-list entry flips a bit outside the 32-bit word model.
    InvalidBit,
}

/// Every entry of a selection-sort fault list resolves against a data
/// vector of `len` elements, strikes from tick 1 on, and flips a bit of
/// the 32-bit word model.
pub open spec fn selection_batch_ok(entries: Seq<FaultListEntry>, len: nat) -> bool {
    forall|i: int|
        0 <= i < entries.len() ==> {
            &&& spec_resolve_selection((#[trigger] entries[i]).var@, len) is Some
            &&& entries[i].time >= 1
            &&& entries[i].flipped_bit < 32
        }
}

/// As [`selection_batch_ok`], for bubble sort.
pub open spec fn bubble_batch_ok(entries: Seq<FaultListEntry>, len: nat) -> bool {
    forall|i: int|
        0 <= i < entries.len() ==> {
            &&& spec_resolve_bubble((#[trigger] entries[i]).var@, len) is Some
            &&& entries[i].time >= 1
            &&& entries[i].flipped_bit < 32
        }
}

/// As [`selection_batch_ok`], for matrix multiplication on `n` by `n`
/// matrices.
pub open spec fn matrix_batch_ok(entries: Seq<FaultListEntry>, n: nat) -> bool {
    forall|i: int|
        0 <= i < entries.len() ==> {
            &&& spec_resolve_matrix((#[trigger] entries[i]).var@, n) is Some
            &&& entries[i].time >= 1
            &&& entries[i].flipped_bit < 32
        }
}

/// The target name is one of the three kernels.
pub open spec fn known_target(target: Seq<char>) -> bool {
    target == "sel_sort"@ || target == "bubble_sort"@ || target == "matrix_multiplication"@
}

/// The input data fits the target: a non-empty vector for selection sort,
/// a vector for bubble sort, two square matrices of equal size for the
/// multiplication.
pub open spec fn data_fits_target(target: Seq<char>, data: Data<i32>) -> bool {
    if target == "sel_sort"@ {
        data is Vector && data->Vector_0@.len() >= 1
    } else if target == "bubble_sort"@ {
        data is Vector
    } else if target == "matrix_multiplication"@ {
        &&& data is Matrices
        &&& mat_square(mat_view(data->Matrices_0@), data->Matrices_0@.len() as nat)
        &&& mat_square(mat_view(data->Matrices_1@), data->Matrices_0@.len() as nat)
    } else {
        false
    }
}

/// The whole batch is well configured: known target, fitting data, and
/// every fault-list entry valid for that target.
pub open spec fn batch_ok(entries: Seq<FaultListEntry>, target: Seq<char>, data: Data<i32>) -> bool {
    &&& known_target(target)
    &&& data_fits_target(target, data)
    &&& if target == "sel_sort"@ {
        selection_batch_ok(entries, data->Vector_0@.len() as nat)
    } else if target == "bubble_sort"@ {
        bubble_batch_ok(entries, data->Vector_0@.len() as nat)
    } else {
        matrix_batch_ok(entries, data->Matrices_0@.len() as nat)
    }
}

/// Copies a plain vector.
fn clone_plain(v: &Vec<i32>) -> (r: Vec<i32>)
    ensures
        r@ == v@,
{
    let mut r: Vec<i32> = Vec::new();
    let mut k: usize = 0;
    while k < v.len()
        invariant
            k <= v@.len(),
            r@ == v@.subrange(0, k as int),
        decreases v@.len() - k,
    {
        r.push(v[k]);
        k += 1;
    }
    proof {
        assert(v@.subrange(0, v@.len() as int) =~= v@);
    }
    r
}

/// Copies a plain matrix.
fn clone_plain_mat(m: &Vec<Vec<i32>>) -> (r: Vec<Vec<i32>>)
    ensures
        r@.len() == m@.len(),
        forall|i: int| 0 <= i < m@.len() ==> (#[trigger] r@[i])@ == m@[i]@,
{
    let mut r: Vec<Vec<i32>> = Vec::new();
    let mut k: usize = 0;
    while k < m.len()
        invariant
            k <= m@.len(),
            r@.len() == k,
            forall|i: int| 0 <= i < k ==> (#[trigger] r@[i])@ == m@[i]@,
        decreases m@.len() - k,
    {
        r.push(clone_plain(&m[k]));
        k += 1;
    }
    r
}

/// Copies one fault-list entry.
fn clone_entry(e: &FaultListEntry) -> (r: FaultListEntry)
    ensures
        r.var@ == e.var@,
        r.time == e.time,
        r.flipped_bit == e.flipped_bit,
{
    FaultListEntry { var: e.var.clone(), time: e.time, flipped_bit: e.flipped_bit }
}

/// A plain matrix's values in row-major order.
pub open spec fn flat_values(m: Seq<Vec<i32>>) -> Seq<i32>
    decreases m.len(),
{
    if m.len() == 0 {
        Seq::empty()
    } else {
        flat_values(m.drop_last()) + m.last()@
    }
}

/// Flattens a plain matrix row by row.
fn flatten_plain(m: &Vec<Vec<i32>>) -> (r: Vec<i32>)
    ensures
        r@ == flat_values(m@),
{
    let mut r: Vec<i32> = Vec::new();
    let mut i: usize = 0;
    while i < m.len()
        invariant
            i <= m@.len(),
            r@ == flat_values(m@.subrange(0, i as int)),
        decreases m@.len() - i,
    {
        let row = &m[i];
        let mut j: usize = 0;
        while j < row.len()
            invariant
                i < m@.len(),
                row@ == m@[i as int]@,
                j <= row@.len(),
                r@ == flat_values(m@.subrange(0, i as int)) + row@.subrange(0, j as int),
            decreases row@.len() - j,
        {
            r.push(row[j]);
            proof {
                assert(row@.subrange(0, j + 1) =~= row@.subrange(0, j as int) + seq![row@[j as int]]);
            }
            j += 1;
        }
        proof {
            let pre = m@.subrange(0, i as int + 1);
            assert(pre.drop_last() =~= m@.subrange(0, i as int));
            assert(row@.subrange(0, row@.len() as int) =~= row@);
            assert(flat_values(pre) == flat_values(m@.subrange(0, i as int)) + row@);
        }
        i += 1;
    }
    proof {
        assert(m@.subrange(0, m@.len() as int) =~= m@);
    }
    r
}

/// Runs one batch: validates the fault list against the target and data,
/// then runs one kernel/injector trial per entry and tallies the outcomes.
///
/// A batch either completes fully, with every entry classified (the tally's
/// total equals the number of entries, and the batch invariant holds), or
/// aborts before any trial with a configuration error; it succeeds exactly
/// when target, data shape and every fault-list entry are well formed.
pub fn fault_injection_env(
    fault_list: &Vec<FaultListEntry>,
    target: &str,
    data: &Data<i32>,
) -> (r: Result<Faults, ConfigError>)
    ensures
        r is Ok <==> batch_ok(fault_list@, target@, *data),
        r is Ok ==> r->Ok_0.total_fault == fault_list@.len() && tallies_consistent(r->Ok_0),
        !known_target(target@) ==> r == Err::<Faults, ConfigError>(ConfigError::UnknownTarget),
        known_target(target@) && !data_fits_target(target@, *data) ==> r == Err::<
            Faults,
            ConfigError,
        >(ConfigError::WrongDataShape),
{
    if str_eq(target, "sel_sort") {
        match data {
            Data::Vector(v) => {
                if v.len() == 0 {
                    return Err(ConfigError::WrongDataShape);
                }
                run_selection_batch(fault_list, v)
            },
            Data::Matrices(_, _) => Err(ConfigError::WrongDataShape),
        }
    } else if str_eq(target, "bubble_sort") {
        match data {
            Data::Vector(v) => run_bubble_batch(fault_list, v),
            Data::Matrices(_, _) => Err(ConfigError::WrongDataShape),
        }
    } else if str_eq(target, "matrix_multiplication") {
        match data {
            Data::Matrices(a, b) => {
                if !square_check(a, a.len()) || !square_check(b, a.len()) {
                    return Err(ConfigError::WrongDataShape);
                }
                run_matrix_batch(fault_list, a, b)
            },
            Data::Vector(_) => Err(ConfigError::WrongDataShape),
        }
    } else {
        Err(ConfigError::UnknownTarget)
    }
}

/// Checks that a matrix has `n` rows of `n` cells each.
fn square_check(m: &Vec<Vec<i32>>, n: usize) -> (r: bool)
    ensures
        r <==> mat_square(mat_view(m@), n as nat),
{
    if m.len() != n {
        return false;
    }
    let mut i: usize = 0;
    while i < n
        invariant
            m@.len() == n,
            i <= n,
            forall|p: int| 0 <= p < i ==> (#[trigger] m@[p])@.len() == n,
        decreases n - i,
    {
        if m[i].len() != n {
            proof {
                assert(mat_view(m@)[i as int].len() != n);
            }
            return false;
        }
        i += 1;
    }
    proof {
        assert(forall|p: int| 0 <= p < n ==> (#[trigger] mat_view(m@)[p]).len() == n);
    }
    true
}

/// The selection-sort batch, on an already shape-checked vector.
fn run_selection_batch(fault_list: &Vec<FaultListEntry>, v: &Vec<i32>) -> (r: Result<
    Faults,
    ConfigError,
>)
    requires
        v@.len() >= 1,
    ensures
        r is Ok <==> selection_batch_ok(fault_list@, v@.len() as nat),
        r is Ok ==> r->Ok_0.total_fault == fault_list@.len() && tallies_consistent(r->Ok_0),
        r is Err ==> r->Err_0 == ConfigError::UnresolvableVariablePath || r->Err_0
            == ConfigError::InvalidTime || r->Err_0 == ConfigError::InvalidBit,
{
    let mut targets: Vec<SelectionTarget> = Vec::new();
    let mut idx: usize = 0;
    while idx < fault_list.len()
        invariant
            idx <= fault_list@.len(),
            targets@.len() == idx,
            forall|i: int|
                0 <= i < idx ==> {
                    &&& spec_resolve_selection(
                        (#[trigger] fault_list@[i]).var@,
                        v@.len() as nat,
                    ) is Some
                    &&& fault_list@[i].time >= 1
                    &&& fault_list@[i].flipped_bit < 32
                },
        decreases fault_list@.len() - idx,
    {
        let entry = &fault_list[idx];
        match resolve_selection_target(entry.var.as_str(), v.len()) {
            Some(t) => {
                targets.push(t);
            },
            None => {
                return Err(ConfigError::UnresolvableVariablePath);
            },
        }
        if entry.time == 0 {
            return Err(ConfigError::InvalidTime);
        }
        if entry.flipped_bit >= 32 {
            return Err(ConfigError::InvalidBit);
        }
        idx += 1;
    }
    let mut results: Vec<TestResult> = Vec::new();
    let mut t: usize = 0;
    while t < fault_list.len()
        invariant
            fault_list@.len() == targets@.len(),
            t <= fault_list@.len(),
            results@.len() == t,
            forall|i: int| 0 <= i < fault_list@.len() ==> (#[trigger] fault_list@[i]).flipped_bit
                < 32,
        decreases fault_list@.len() - t,
    {
        let entry = &fault_list[t];
        let mut vars = SelectionSortVariables::new(clone_plain(v));
        let (res, _ticks) = runner_selection_sort(
            &mut vars,
            &targets[t],
            entry.time,
            entry.flipped_bit,
        );
        results.push(TestResult::new(clone_entry(entry), res));
        t += 1;
    }
    let reference = crate::fault_list_manager::file_fault_list::selection_sort::selection_sort(
        clone_plain(v),
    );
    Ok(classify_outcomes(&results, &reference))
}

/// The bubble-sort batch.
fn run_bubble_batch(fault_list: &Vec<FaultListEntry>, v: &Vec<i32>) -> (r: Result<
    Faults,
    ConfigError,
>)
    ensures
        r is Ok <==> bubble_batch_ok(fault_list@, v@.len() as nat),
        r is Ok ==> r->Ok_0.total_fault == fault_list@.len() && tallies_consistent(r->Ok_0),
        r is Err ==> r->Err_0 == ConfigError::UnresolvableVariablePath || r->Err_0
            == ConfigError::InvalidTime || r->Err_0 == ConfigError::InvalidBit,
{
    let mut targets: Vec<BubbleTarget> = Vec::new();
    let mut idx: usize = 0;
    while idx < fault_list.len()
        invariant
            idx <= fault_list@.len(),
            targets@.len() == idx,
            forall|i: int|
                0 <= i < idx ==> {
                    &&& spec_resolve_bubble((#[trigger] fault_list@[i]).var@, v@.len() as nat) is Some
                    &&& fault_list@[i].time >= 1
                    &&& fault_list@[i].flipped_bit < 32
                },
        decreases fault_list@.len() - idx,
    {
        let entry = &fault_list[idx];
        match resolve_bubble_target(entry.var.as_str(), v.len()) {
            Some(t) => {
                targets.push(t);
            },
            None => {
                return Err(ConfigError::UnresolvableVariablePath);
            },
        }
        if entry.time == 0 {
            return Err(ConfigError::InvalidTime);
        }
        if entry.flipped_bit >= 32 {
            return Err(ConfigError::InvalidBit);
        }
        idx += 1;
    }
    let mut results: Vec<TestResult> = Vec::new();
    let mut t: usize = 0;
    while t < fault_list.len()
        invariant
            fault_list@.len() == targets@.len(),
            t <= fault_list@.len(),
            results@.len() == t,
            forall|i: int| 0 <= i < fault_list@.len() ==> (#[trigger] fault_list@[i]).flipped_bit
                < 32,
        decreases fault_list@.len() - t,
    {
        let entry = &fault_list[t];
        let mut vars = BubbleSortVariables::new(clone_plain(v));
        let (res, _ticks) = runner_bubble_sort(&mut vars, &targets[t], entry.time, entry.flipped_bit);
        results.push(TestResult::new(clone_entry(entry), res));
        t += 1;
    }
    let reference = crate::fault_list_manager::file_fault_list::bubble_sort::bubble_sort(
        clone_plain(v),
    );
    Ok(classify_outcomes(&results, &reference))
}

/// The matrix-multiplication batch, on already shape-checked matrices.
fn run_matrix_batch(fault_list: &Vec<FaultListEntry>, a: &Vec<Vec<i32>>, b: &Vec<Vec<i32>>) -> (r:
    Result<Faults, ConfigError>)
    requires
        mat_square(mat_view(a@), a@.len() as nat),
        mat_square(mat_view(b@), a@.len() as nat),
    ensures
        r is Ok <==> matrix_batch_ok(fault_list@, a@.len() as nat),
        r is Ok ==> r->Ok_0.total_fault == fault_list@.len() && tallies_consistent(r->Ok_0),
        r is Err ==> r->Err_0 == ConfigError::UnresolvableVariablePath || r->Err_0
            == ConfigError::InvalidTime || r->Err_0 == ConfigError::InvalidBit,
{
    let mut targets: Vec<MatrixTarget> = Vec::new();
    let mut idx: usize = 0;
    while idx < fault_list.len()
        invariant
            idx <= fault_list@.len(),
            targets@.len() == idx,
            forall|i: int|
                0 <= i < idx ==> {
                    &&& spec_resolve_matrix((#[trigger] fault_list@[i]).var@, a@.len() as nat) is Some
                    &&& fault_list@[i].time >= 1
                    &&& fault_list@[i].flipped_bit < 32
                },
        decreases fault_list@.len() - idx,
    {
        let entry = &fault_list[idx];
        match resolve_matrix_target(entry.var.as_str(), a.len()) {
            Some(t) => {
                targets.push(t);
            },
            None => {
                return Err(ConfigError::UnresolvableVariablePath);
            },
        }
        if entry.time == 0 {
            return Err(ConfigError::InvalidTime);
        }
        if entry.flipped_bit >= 32 {
            return Err(ConfigError::InvalidBit);
        }
        idx += 1;
    }
    let mut results: Vec<TestResult> = Vec::new();
    let mut t: usize = 0;
    while t < fault_list.len()
        invariant
            fault_list@.len() == targets@.len(),
            t <= fault_list@.len(),
            results@.len() == t,
            forall|i: int| 0 <= i < fault_list@.len() ==> (#[trigger] fault_list@[i]).flipped_bit
                < 32,
        decreases fault_list@.len() - t,
    {
        let entry = &fault_list[t];
        let mut vars = MatrixMultiplicationVariables::new(
            (clone_plain_mat(a), clone_plain_mat(b)),
        );
        let (res, _ticks) = runner_matrix_multiplication(
            &mut vars,
            &targets[t],
            entry.time,
            entry.flipped_bit,
        );
        results.push(TestResult::new(clone_entry(entry), res));
        t += 1;
    }
    let ca = clone_plain_mat(a);
    let cb = clone_plain_mat(b);
    proof {
        assert forall|i: int|
            0 <= i < ca@.len() implies (#[trigger] mat_view(ca@)[i]).len() == a@.len() by {
            assert(mat_view(ca@)[i] == ca@[i]@);
            assert(mat_view(a@)[i] == a@[i]@);
        }
        assert forall|i: int|
            0 <= i < cb@.len() implies (#[trigger] mat_view(cb@)[i]).len() == a@.len() by {
            assert(mat_view(cb@)[i] == cb@[i]@);
            assert(mat_view(b@)[i] == b@[i]@);
        }
        assert(mat_square(mat_view(ca@), ca@.len() as nat));
        assert(mat_square(mat_view(cb@), ca@.len() as nat));
    }
    let prod = crate::fault_list_manager::file_fault_list::matrix_multiplication::matrix_multiplication(
        ca,
        cb,
    );
    let reference = flatten_plain(&prod);
    Ok(classify_outcomes(&results, &reference))
}

} // verus!
