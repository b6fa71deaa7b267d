//! Fault-list entries and their generation.
//!
//! A [`FaultListEntry`] schedules one independent trial: it names one
//! variable of a kernel run (with optional bracketed indices), the 1-based
//! synchronization tick at which to strike, and which bit of the primary
//! copy to flip.

pub mod file_fault_list;
pub mod static_analysis;

use vstd::prelude::*;

verus! {

/// One scheduled fault: one trial.  Immutable once created.
#[derive(Debug, Clone)]
pub struct FaultListEntry {
    /// The target variable, e.g. `"min"`, `"vec[2]"`, `"a[1][3]"`.
    pub var: String,
    /// The 1-based tick after which the flip lands; a time past the end of
    /// the run means the fault is never applied.
    pub time: usize,
    /// Which bit of the primary copy is flipped.
    pub flipped_bit: usize,
}

/// The dimensions a fault list is sampled against: the length of the data
/// vector, or the row and column counts of the matrices.
#[derive(Debug, Clone, Copy)]
pub enum DimData {
    Vector(usize),
    Matrices((usize, usize)),
}

impl DimData {
    /// The matrix dimensions; only the `Matrices` variant carries them.
    pub(crate) fn into_tuple(self) -> (r: (usize, usize))
        requires
            self is Matrices,
        ensures
            r == self->Matrices_0,
    {
        match self {
            DimData::Matrices((a, b)) => (a, b),
            DimData::Vector(_) => vstd::pervasive::unreached(),
        }
    }

    /// The vector length; only the `Vector` variant carries it.
    pub(crate) fn into_n(self) -> (r: usize)
        requires
            self is Vector,
        ensures
            r == self->Vector_0,
    {
        match self {
            DimData::Vector(a) => a,
            DimData::Matrices(_) => vstd::pervasive::unreached(),
        }
    }
}

} // verus!
