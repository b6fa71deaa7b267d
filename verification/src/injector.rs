//! The fault-injection engine: per-trial algorithm state, the injector that
//! corrupts exactly one copy of one variable at one logical instruction
//! boundary, and the per-trial outcome record.
//!
//! The synchronization protocol is a strict rendezvous: the kernel may not
//! pass instruction `k` before the injector has made its decision about
//! tick `k`.  That fully serializes the two roles, so the engine runs them
//! as one sequential interpreter: after every instruction the tick counter
//! advances and, exactly when it reaches the scheduled time, the fault
//! lands.  Fault timing is therefore deterministic by construction.

pub mod algorithms;

use crate::fault_list_manager::FaultListEntry;
use crate::hardened::{all_coherent, values_of, Hardened, IncoherenceError};
use crate::strutil::{parse_cell_index, parse_elem_index, spec_cell_index, spec_elem_index, str_eq};
use vstd::prelude::*;

verus! {

/// The outcome of one trial: the fault that was scheduled and either the
/// kernel's final output or the tag under which the fault was detected.
#[derive(Debug)]
pub struct TestResult {
    fault_list_entry: FaultListEntry,
    result: Result<Vec<Hardened<i32>>, IncoherenceError>,
}

impl TestResult {
    /// Pairs a scheduled fault with what its trial produced.
    pub fn new(
        fault_list_entry: FaultListEntry,
        result: Result<Vec<Hardened<i32>>, IncoherenceError>,
    ) -> (r: TestResult)
        ensures
            r.spec_fault_list_entry() == fault_list_entry,
            r.spec_result() == result,
    {
        TestResult { fault_list_entry, result }
    }

    /// The trial's outcome.
    pub closed spec fn spec_result(&self) -> Result<Vec<Hardened<i32>>, IncoherenceError> {
        self.result
    }

    /// The fault that was scheduled.
    pub closed spec fn spec_fault_list_entry(&self) -> FaultListEntry {
        self.fault_list_entry
    }

    pub fn get_result(&self) -> (r: Result<Vec<Hardened<i32>>, IncoherenceError>)
        ensures
            r is Ok <==> self.spec_result() is Ok,
            r is Ok ==> r->Ok_0@ == self.spec_result()->Ok_0@,
            r is Err ==> r->Err_0 == self.spec_result()->Err_0,
    {
        match &self.result {
            Ok(v) => Ok(clone_hvec(v)),
            Err(e) => Err(*e),
        }
    }

    pub fn get_fault_list_entry(&self) -> (r: FaultListEntry)
        ensures
            r.var@ == self.spec_fault_list_entry().var@,
            r.time == self.spec_fault_list_entry().time,
            r.flipped_bit == self.spec_fault_list_entry().flipped_bit,
    {
        FaultListEntry {
            var: self.fault_list_entry.var.clone(),
            time: self.fault_list_entry.time,
            flipped_bit: self.fault_list_entry.flipped_bit,
        }
    }
}

/// A matrix's cells in row-major order.
pub open spec fn flat_cells(m: Seq<Vec<Hardened<i32>>>) -> Seq<Hardened<i32>>
    decreases m.len(),
{
    if m.len() == 0 {
        Seq::empty()
    } else {
        flat_cells(m.drop_last()) + m.last()@
    }
}

/// Flattens a matrix into its cells in row-major order.
pub fn flatten_cells(m: &Vec<Vec<Hardened<i32>>>) -> (r: Vec<Hardened<i32>>)
    ensures
        r@ == flat_cells(m@),
{
    let mut r: Vec<Hardened<i32>> = Vec::new();
    let mut i: usize = 0;
    while i < m.len()
        invariant
            i <= m@.len(),
            r@ == flat_cells(m@.subrange(0, i as int)),
        decreases m@.len() - i,
    {
        let row = &m[i];
        let mut j: usize = 0;
        while j < row.len()
            invariant
                i < m@.len(),
                row@ == m@[i as int]@,
                j <= row@.len(),
                r@ == flat_cells(m@.subrange(0, i as int)) + row@.subrange(0, j as int),
            decreases row@.len() - j,
        {
            r.push(row[j]);
            proof {
                assert(row@.subrange(0, j + 1) =~= row@.subrange(0, j as int) + seq![row@[j as int]]);
            }
            j += 1;
        }
        proof {
            let pre = m@.subrange(0, i as int + 1);
            assert(pre.drop_last() =~= m@.subrange(0, i as int));
            assert(row@.subrange(0, row@.len() as int) =~= row@);
            assert(flat_cells(pre) == flat_cells(m@.subrange(0, i as int)) + row@);
        }
        i += 1;
    }
    proof {
        assert(m@.subrange(0, m@.len() as int) =~= m@);
    }
    r
}

/// Copies a hardened vector element by element.
pub fn clone_hvec(v: &Vec<Hardened<i32>>) -> (r: Vec<Hardened<i32>>)
    ensures
        r@ == v@,
{
    let mut r: Vec<Hardened<i32>> = Vec::new();
    let mut k: usize = 0;
    while k < v.len()
        invariant
            k <= v@.len(),
            r@ == v@.subrange(0, k as int),
        decreases v@.len() - k,
    {
        r.push(v[k]);
        k += 1;
    }
    proof {
        assert(v@.subrange(0, v@.len() as int) =~= v@);
    }
    r
}

/// The working variables of one selection-sort trial, each stored
/// redundantly.  Created fresh from the trial's input data.
pub struct SelectionSortVariables {
    pub i: Hardened<usize>,
    pub j: Hardened<usize>,
    pub n: Hardened<usize>,
    pub min: Hardened<usize>,
    pub vec: Vec<Hardened<i32>>,
}

impl SelectionSortVariables {
    pub fn new(vec: Vec<i32>) -> (r: SelectionSortVariables)
        ensures
            r.i == (Hardened { cp1: 0usize, cp2: 0usize }),
            r.j == (Hardened { cp1: 0usize, cp2: 0usize }),
            r.n == (Hardened { cp1: 0usize, cp2: 0usize }),
            r.min == (Hardened { cp1: 0usize, cp2: 0usize }),
            all_coherent(r.vec@),
            values_of(r.vec@) == vec@,
            r.vec@.len() == vec@.len(),
    {
        SelectionSortVariables {
            i: Hardened::from(0usize),
            j: Hardened::from(0usize),
            n: Hardened::from(0usize),
            min: Hardened::from(0usize),
            vec: Hardened::from_vec(vec),
        }
    }
}

/// The working variables of one bubble-sort trial.
pub struct BubbleSortVariables {
    pub i: Hardened<usize>,
    pub j: Hardened<usize>,
    pub n: Hardened<usize>,
    pub swapped: Hardened<bool>,
    pub vet: Vec<Hardened<i32>>,
}

impl BubbleSortVariables {
    pub fn new(vet: Vec<i32>) -> (r: BubbleSortVariables)
        ensures
            r.i == (Hardened { cp1: 0usize, cp2: 0usize }),
            r.j == (Hardened { cp1: 0usize, cp2: 0usize }),
            r.n == (Hardened { cp1: 0usize, cp2: 0usize }),
            r.swapped == (Hardened { cp1: false, cp2: false }),
            all_coherent(r.vet@),
            values_of(r.vet@) == vet@,
            r.vet@.len() == vet@.len(),
    {
        BubbleSortVariables {
            i: Hardened::from(0usize),
            j: Hardened::from(0usize),
            n: Hardened::from(0usize),
            swapped: Hardened::from(false),
            vet: Hardened::from_vec(vet),
        }
    }
}

/// The working variables of one matrix-multiplication trial.
pub struct MatrixMultiplicationVariables {
    pub size: Hardened<usize>,
    pub i: Hardened<usize>,
    pub j: Hardened<usize>,
    pub k: Hardened<usize>,
    pub acc: Hardened<i32>,
    pub a: Vec<Vec<Hardened<i32>>>,
    pub b: Vec<Vec<Hardened<i32>>>,
    pub result: Vec<Vec<Hardened<i32>>>,
}

impl MatrixMultiplicationVariables {
    pub fn new(input: (Vec<Vec<i32>>, Vec<Vec<i32>>)) -> (r: MatrixMultiplicationVariables)
        ensures
            r.size == (Hardened { cp1: 0usize, cp2: 0usize }),
            r.i == (Hardened { cp1: 0usize, cp2: 0usize }),
            r.j == (Hardened { cp1: 0usize, cp2: 0usize }),
            r.k == (Hardened { cp1: 0usize, cp2: 0usize }),
            r.acc == (Hardened { cp1: 0i32, cp2: 0i32 }),
            r.a@.len() == input.0@.len(),
            forall|x: int| 0 <= x < input.0@.len() ==> (#[trigger] r.a@[x])@.len()
                == input.0@[x]@.len(),
            forall|x: int, y: int|
                0 <= x < input.0@.len() && 0 <= y < input.0@[x]@.len() ==> #[trigger] r.a@[x]@[y]
                    == (Hardened { cp1: input.0@[x]@[y], cp2: input.0@[x]@[y] }),
            r.b@.len() == input.1@.len(),
            forall|x: int| 0 <= x < input.1@.len() ==> (#[trigger] r.b@[x])@.len()
                == input.1@[x]@.len(),
            forall|x: int, y: int|
                0 <= x < input.1@.len() && 0 <= y < input.1@[x]@.len() ==> #[trigger] r.b@[x]@[y]
                    == (Hardened { cp1: input.1@[x]@[y], cp2: input.1@[x]@[y] }),
            r.result@.len() == 0,
    {
        let (a, b) = input;
        MatrixMultiplicationVariables {
            size: Hardened::from(0usize),
            i: Hardened::from(0usize),
            j: Hardened::from(0usize),
            k: Hardened::from(0usize),
            acc: Hardened::from(0i32),
            a: Hardened::from_mat(a),
            b: Hardened::from_mat(b),
            result: Vec::new(),
        }
    }
}

/// Which variable of a selection-sort run a fault strikes.
#[derive(Debug, Clone, Copy, PartialEq, Eq, Structural)]
pub enum SelectionTarget {
    I,
    J,
    N,
    Min,
    VecElem(usize),
}

/// Which variable of a bubble-sort run a fault strikes.
#[derive(Debug, Clone, Copy, PartialEq, Eq, Structural)]
pub enum BubbleTarget {
    I,
    J,
    N,
    Swapped,
    VetElem(usize),
}

/// Which variable of a matrix-multiplication run a fault strikes.
#[derive(Debug, Clone, Copy, PartialEq, Eq, Structural)]
pub enum MatrixTarget {
    I,
    J,
    K,
    Size,
    Acc,
    ACell(usize, usize),
    BCell(usize, usize),
    ResultCell(usize, usize),
}

/// Resolution of a selection-sort variable path against a data vector of
/// `len` elements.  An unresolvable path gives `None`: a configuration
/// error, never a trial outcome.
pub open spec fn spec_resolve_selection(s: Seq<char>, len: nat) -> Option<SelectionTarget> {
    if s == "i"@ {
        Some(SelectionTarget::I)
    } else if s == "j"@ {
        Some(SelectionTarget::J)
    } else if s == "n"@ {
        Some(SelectionTarget::N)
    } else if s == "min"@ {
        Some(SelectionTarget::Min)
    } else {
        match spec_elem_index(s, "vec"@) {
            Some(k) => if 0 <= k < len {
                Some(SelectionTarget::VecElem(k as usize))
            } else {
                None
            },
            None => None,
        }
    }
}

pub fn resolve_selection_target(var: &str, len: usize) -> (r: Option<SelectionTarget>)
    ensures
        r == spec_resolve_selection(var@, len as nat),
{
    if str_eq(var, "i") {
        Some(SelectionTarget::I)
    } else if str_eq(var, "j") {
        Some(SelectionTarget::J)
    } else if str_eq(var, "n") {
        Some(SelectionTarget::N)
    } else if str_eq(var, "min") {
        Some(SelectionTarget::Min)
    } else {
        match parse_elem_index(var, "vec") {
            Some(k) => if k < len {
                Some(SelectionTarget::VecElem(k))
            } else {
                None
            },
            None => None,
        }
    }
}

/// Resolution of a bubble-sort variable path.
pub open spec fn spec_resolve_bubble(s: Seq<char>, len: nat) -> Option<BubbleTarget> {
    if s == "i"@ {
        Some(BubbleTarget::I)
    } else if s == "j"@ {
        Some(BubbleTarget::J)
    } else if s == "n"@ {
        Some(BubbleTarget::N)
    } else if s == "swapped"@ {
        Some(BubbleTarget::Swapped)
    } else {
        match spec_elem_index(s, "vet"@) {
            Some(k) => if 0 <= k < len {
                Some(BubbleTarget::VetElem(k as usize))
            } else {
                None
            },
            None => None,
        }
    }
}

pub fn resolve_bubble_target(var: &str, len: usize) -> (r: Option<BubbleTarget>)
    ensures
        r == spec_resolve_bubble(var@, len as nat),
{
    if str_eq(var, "i") {
        Some(BubbleTarget::I)
    } else if str_eq(var, "j") {
        Some(BubbleTarget::J)
    } else if str_eq(var, "n") {
        Some(BubbleTarget::N)
    } else if str_eq(var, "swapped") {
        Some(BubbleTarget::Swapped)
    } else {
        match parse_elem_index(var, "vet") {
            Some(k) => if k < len {
                Some(BubbleTarget::VetElem(k))
            } else {
                None
            },
            None => None,
        }
    }
}

/// Resolution of a matrix-multiplication variable path against `n` by `n`
/// operand and result matrices.
pub open spec fn spec_resolve_matrix(s: Seq<char>, n: nat) -> Option<MatrixTarget> {
    if s == "i"@ {
        Some(MatrixTarget::I)
    } else if s == "j"@ {
        Some(MatrixTarget::J)
    } else if s == "k"@ {
        Some(MatrixTarget::K)
    } else if s == "size"@ {
        Some(MatrixTarget::Size)
    } else if s == "acc"@ {
        Some(MatrixTarget::Acc)
    } else if spec_cell_index(s, "a"@) is Some {
        let rc = spec_cell_index(s, "a"@)->Some_0;
        if 0 <= rc.0 < n && 0 <= rc.1 < n {
            Some(MatrixTarget::ACell(rc.0 as usize, rc.1 as usize))
        } else {
            None
        }
    } else if spec_cell_index(s, "b"@) is Some {
        let rc = spec_cell_index(s, "b"@)->Some_0;
        if 0 <= rc.0 < n && 0 <= rc.1 < n {
            Some(MatrixTarget::BCell(rc.0 as usize, rc.1 as usize))
        } else {
            None
        }
    } else if spec_cell_index(s, "result"@) is Some {
        let rc = spec_cell_index(s, "result"@)->Some_0;
        if 0 <= rc.0 < n && 0 <= rc.1 < n {
            Some(MatrixTarget::ResultCell(rc.0 as usize, rc.1 as usize))
        } else {
            None
        }
    } else {
        None
    }
}

pub fn resolve_matrix_target(var: &str, n: usize) -> (r: Option<MatrixTarget>)
    ensures
        r == spec_resolve_matrix(var@, n as nat),
{
    if str_eq(var, "i") {
        Some(MatrixTarget::I)
    } else if str_eq(var, "j") {
        Some(MatrixTarget::J)
    } else if str_eq(var, "k") {
        Some(MatrixTarget::K)
    } else if str_eq(var, "size") {
        Some(MatrixTarget::Size)
    } else if str_eq(var, "acc") {
        Some(MatrixTarget::Acc)
    } else if let Some((r0, c0)) = parse_cell_index(var, "a") {
        if r0 < n && c0 < n {
            Some(MatrixTarget::ACell(r0, c0))
        } else {
            None
        }
    } else if let Some((r0, c0)) = parse_cell_index(var, "b") {
        if r0 < n && c0 < n {
            Some(MatrixTarget::BCell(r0, c0))
        } else {
            None
        }
    } else if let Some((r0, c0)) = parse_cell_index(var, "result") {
        if r0 < n && c0 < n {
            Some(MatrixTarget::ResultCell(r0, c0))
        } else {
            None
        }
    } else {
        None
    }
}

/// The primary copy of an index variable after a flip of bit `bit`.
pub open spec fn flip_usize(v: usize, bit: usize) -> usize {
    v ^ (1usize << bit)
}

/// The unsigned bit pattern of a data value.
pub open spec fn u32_of_i32(v: i32) -> u32 {
    if v >= 0 {
        v as u32
    } else {
        (v + 0x1_0000_0000) as u32
    }
}

/// The data value with a given unsigned bit pattern.
pub open spec fn i32_of_u32(u: u32) -> i32 {
    if u <= i32::MAX as u32 {
        u as i32
    } else {
        (u - 0x1_0000_0000) as i32
    }
}

/// The primary copy of a data value after a flip of bit `bit` of its bit
/// pattern.
pub open spec fn flip_i32(v: i32, bit: usize) -> i32 {
    i32_of_u32(u32_of_i32(v) ^ (1u32 << bit))
}

/// A single-bit flip never leaves an index variable unchanged, so the
/// struck pair is incoherent from that moment on.
pub broadcast proof fn lemma_flip_usize_changes(v: usize, bit: usize)
    requires
        bit < 32,
    ensures
        #[trigger] flip_usize(v, bit) != v,
{
    assert(bit < 32 ==> (v ^ (1usize << bit)) != v) by (bit_vector);
}

/// A single-bit flip never leaves a data value unchanged either.
pub broadcast proof fn lemma_flip_i32_changes(v: i32, bit: usize)
    requires
        bit < 32,
    ensures
        #[trigger] flip_i32(v, bit) != v,
{
    let u = u32_of_i32(v);
    assert(bit < 32 ==> (u ^ (1u32 << bit)) != u) by (bit_vector);
}

/// Computes the bit flip of a data value's primary copy.
fn flip_value(v: i32, bit: usize) -> (r: i32)
    requires
        bit < 32,
    ensures
        r == flip_i32(v, bit),
{
    let u: u32 = if v >= 0 {
        v as u32
    } else {
        ((v as i64) + 0x1_0000_0000i64) as u32
    };
    let f: u32 = u ^ (1u32 << bit);
    if f <= i32::MAX as u32 {
        f as i32
    } else {
        ((f as i64) - 0x1_0000_0000i64) as i32
    }
}

/// What one injection does to a selection-sort state: the primary copy of
/// the struck variable changes, its second copy and every other variable
/// stay as they were.  A fault aimed at a vector slot that does not exist
/// strikes nothing.
pub open spec fn inject_rel_selection(
    pre: SelectionSortVariables,
    post: SelectionSortVariables,
    target: SelectionTarget,
    bit: usize,
) -> bool {
    match target {
        SelectionTarget::I => post == (SelectionSortVariables {
            i: Hardened { cp1: flip_usize(pre.i.cp1, bit), cp2: pre.i.cp2 },
            ..pre
        }),
        SelectionTarget::J => post == (SelectionSortVariables {
            j: Hardened { cp1: flip_usize(pre.j.cp1, bit), cp2: pre.j.cp2 },
            ..pre
        }),
        SelectionTarget::N => post == (SelectionSortVariables {
            n: Hardened { cp1: flip_usize(pre.n.cp1, bit), cp2: pre.n.cp2 },
            ..pre
        }),
        SelectionTarget::Min => post == (SelectionSortVariables {
            min: Hardened { cp1: flip_usize(pre.min.cp1, bit), cp2: pre.min.cp2 },
            ..pre
        }),
        SelectionTarget::VecElem(k) => {
            &&& post.i == pre.i
            &&& post.j == pre.j
            &&& post.n == pre.n
            &&& post.min == pre.min
            &&& k < pre.vec@.len() ==> post.vec@ == pre.vec@.update(
                k as int,
                Hardened { cp1: flip_i32(pre.vec@[k as int].cp1, bit), cp2: pre.vec@[k as int].cp2 },
            )
            &&& k >= pre.vec@.len() ==> post.vec@ == pre.vec@
        },
    }
}

/// Strikes a selection-sort state: flips one bit of the primary copy of the
/// target, leaving the second copy untouched.  This is the only way the
/// engine manufactures incoherence.
pub fn inject_selection(vars: &mut SelectionSortVariables, target: &SelectionTarget, bit: usize)
    requires
        bit < 32,
    ensures
        inject_rel_selection(*old(vars), *final(vars), *target, bit),
        final(vars).vec@.len() == old(vars).vec@.len(),
{
    match target {
        SelectionTarget::I => {
            vars.i.cp1 = vars.i.cp1 ^ (1usize << bit);
        },
        SelectionTarget::J => {
            vars.j.cp1 = vars.j.cp1 ^ (1usize << bit);
        },
        SelectionTarget::N => {
            vars.n.cp1 = vars.n.cp1 ^ (1usize << bit);
        },
        SelectionTarget::Min => {
            vars.min.cp1 = vars.min.cp1 ^ (1usize << bit);
        },
        SelectionTarget::VecElem(k) => {
            let k = *k;
            if k < vars.vec.len() {
                let h = vars.vec[k];
                vars.vec[k] = Hardened { cp1: flip_value(h.cp1, bit), cp2: h.cp2 };
            }
        },
    }
}

/// What one injection does to a bubble-sort state.  The `swapped` flag is a
/// boolean: its fault model is logical negation of the primary copy.
pub open spec fn inject_rel_bubble(
    pre: BubbleSortVariables,
    post: BubbleSortVariables,
    target: BubbleTarget,
    bit: usize,
) -> bool {
    match target {
        BubbleTarget::I => post == (BubbleSortVariables {
            i: Hardened { cp1: flip_usize(pre.i.cp1, bit), cp2: pre.i.cp2 },
            ..pre
        }),
        BubbleTarget::J => post == (BubbleSortVariables {
            j: Hardened { cp1: flip_usize(pre.j.cp1, bit), cp2: pre.j.cp2 },
            ..pre
        }),
        BubbleTarget::N => post == (BubbleSortVariables {
            n: Hardened { cp1: flip_usize(pre.n.cp1, bit), cp2: pre.n.cp2 },
            ..pre
        }),
        BubbleTarget::Swapped => post == (BubbleSortVariables {
            swapped: Hardened { cp1: !pre.swapped.cp1, cp2: pre.swapped.cp2 },
            ..pre
        }),
        BubbleTarget::VetElem(k) => {
            &&& post.i == pre.i
            &&& post.j == pre.j
            &&& post.n == pre.n
            &&& post.swapped == pre.swapped
            &&& k < pre.vet@.len() ==> post.vet@ == pre.vet@.update(
                k as int,
                Hardened { cp1: flip_i32(pre.vet@[k as int].cp1, bit), cp2: pre.vet@[k as int].cp2 },
            )
            &&& k >= pre.vet@.len() ==> post.vet@ == pre.vet@
        },
    }
}

/// Strikes a bubble-sort state, as [`inject_selection`] does.
pub fn inject_bubble(vars: &mut BubbleSortVariables, target: &BubbleTarget, bit: usize)
    requires
        bit < 32,
    ensures
        inject_rel_bubble(*old(vars), *final(vars), *target, bit),
        final(vars).vet@.len() == old(vars).vet@.len(),
{
    match target {
        BubbleTarget::I => {
            vars.i.cp1 = vars.i.cp1 ^ (1usize << bit);
        },
        BubbleTarget::J => {
            vars.j.cp1 = vars.j.cp1 ^ (1usize << bit);
        },
        BubbleTarget::N => {
            vars.n.cp1 = vars.n.cp1 ^ (1usize << bit);
        },
        BubbleTarget::Swapped => {
            vars.swapped.cp1 = !vars.swapped.cp1;
        },
        BubbleTarget::VetElem(k) => {
            let k = *k;
            if k < vars.vet.len() {
                let h = vars.vet[k];
                vars.vet[k] = Hardened { cp1: flip_value(h.cp1, bit), cp2: h.cp2 };
            }
        },
    }
}

/// What one injection does to a matrix-multiplication state.  The `size`
/// field's fault model is logical negation; matrix cells get the bit flip.
/// A cell that does not (or does not yet) exist is struck into nothing.
pub open spec fn inject_rel_matrix(
    pre: MatrixMultiplicationVariables,
    post: MatrixMultiplicationVariables,
    target: MatrixTarget,
    bit: usize,
) -> bool {
    match target {
        MatrixTarget::I => post == (MatrixMultiplicationVariables {
            i: Hardened { cp1: flip_usize(pre.i.cp1, bit), cp2: pre.i.cp2 },
            ..pre
        }),
        MatrixTarget::J => post == (MatrixMultiplicationVariables {
            j: Hardened { cp1: flip_usize(pre.j.cp1, bit), cp2: pre.j.cp2 },
            ..pre
        }),
        MatrixTarget::K => post == (MatrixMultiplicationVariables {
            k: Hardened { cp1: flip_usize(pre.k.cp1, bit), cp2: pre.k.cp2 },
            ..pre
        }),
        MatrixTarget::Size => post == (MatrixMultiplicationVariables {
            size: Hardened { cp1: !pre.size.cp1, cp2: pre.size.cp2 },
            ..pre
        }),
        MatrixTarget::Acc => post == (MatrixMultiplicationVariables {
            acc: Hardened { cp1: flip_i32(pre.acc.cp1, bit), cp2: pre.acc.cp2 },
            ..pre
        }),
        MatrixTarget::ACell(r, c) => {
            &&& post.size == pre.size
            &&& post.i == pre.i
            &&& post.j == pre.j
            &&& post.k == pre.k
            &&& post.acc == pre.acc
            &&& post.b == pre.b
            &&& post.result == pre.result
            &&& cell_flip(pre.a@, post.a@, r, c, bit)
        },
        MatrixTarget::BCell(r, c) => {
            &&& post.size == pre.size
            &&& post.i == pre.i
            &&& post.j == pre.j
            &&& post.k == pre.k
            &&& post.acc == pre.acc
            &&& post.a == pre.a
            &&& post.result == pre.result
            &&& cell_flip(pre.b@, post.b@, r, c, bit)
        },
        MatrixTarget::ResultCell(r, c) => {
            &&& post.size == pre.size
            &&& post.i == pre.i
            &&& post.j == pre.j
            &&& post.k == pre.k
            &&& post.acc == pre.acc
            &&& post.a == pre.a
            &&& post.b == pre.b
            &&& cell_flip(pre.result@, post.result@, r, c, bit)
        },
    }
}

/// One cell's primary copy flipped, all other cells as they were; a missing
/// cell means nothing changes.
pub open spec fn cell_flip(
    pre: Seq<Vec<Hardened<i32>>>,
    post: Seq<Vec<Hardened<i32>>>,
    r: usize,
    c: usize,
    bit: usize,
) -> bool {
    &&& post.len() == pre.len()
    &&& forall|x: int| 0 <= x < pre.len() && x != r ==> #[trigger] post[x] == pre[x]
    &&& r < pre.len() && c < pre[r as int]@.len() ==> post[r as int]@ == pre[r as int]@.update(
        c as int,
        Hardened {
            cp1: flip_i32(pre[r as int]@[c as int].cp1, bit),
            cp2: pre[r as int]@[c as int].cp2,
        },
    )
    &&& !(r < pre.len() && c < pre[r as int]@.len()) ==> post == pre
}

/// Strikes a matrix-multiplication state, as [`inject_selection`] does.
pub fn inject_matrix(vars: &mut MatrixMultiplicationVariables, target: &MatrixTarget, bit: usize)
    requires
        bit < 32,
    ensures
        inject_rel_matrix(*old(vars), *final(vars), *target, bit),
{
    match target {
        MatrixTarget::I => {
            vars.i.cp1 = vars.i.cp1 ^ (1usize << bit);
        },
        MatrixTarget::J => {
            vars.j.cp1 = vars.j.cp1 ^ (1usize << bit);
        },
        MatrixTarget::K => {
            vars.k.cp1 = vars.k.cp1 ^ (1usize << bit);
        },
        MatrixTarget::Size => {
            vars.size.cp1 = !vars.size.cp1;
        },
        MatrixTarget::Acc => {
            vars.acc.cp1 = flip_value(vars.acc.cp1, bit);
        },
        MatrixTarget::ACell(r, c) => {
            flip_cell(&mut vars.a, *r, *c, bit);
        },
        MatrixTarget::BCell(r, c) => {
            flip_cell(&mut vars.b, *r, *c, bit);
        },
        MatrixTarget::ResultCell(r, c) => {
            flip_cell(&mut vars.result, *r, *c, bit);
        },
    }
}

/// Flips one bit of the primary copy of `m[r][c]`, if that cell exists.
fn flip_cell(m: &mut Vec<Vec<Hardened<i32>>>, r: usize, c: usize, bit: usize)
    requires
        bit < 32,
    ensures
        cell_flip(old(m)@, final(m)@, r, c, bit),
{
    if r < m.len() {
        let row = &mut m[r];
        if c < row.len() {
            let h = row[c];
            row[c] = Hardened { cp1: flip_value(h.cp1, bit), cp2: h.cp2 };
        }
        proof {
            if c >= old(m)@[r as int]@.len() {
                assert(old(m)@.update(r as int, old(m)@[r as int]) =~= old(m)@);
            }
        }
    }
}

} // verus!
