//! The record of a target program's static analysis, as the fault-list
//! generator consumes it: how many logical instructions the program has and,
//! for each of its variables, a name, a declared type, a size (in bytes or
//! as a formula) and the first tick at which the variable exists.  Producing
//! this record from source text is an external collaborator's job; here it
//! is plain data.

use crate::strutil::str_eq;
use vstd::prelude::*;

verus! {

/// One variable of the analyzed program.
#[derive(Debug, Clone)]
pub struct Variable {
    pub name: String,
    pub ty: String,
    pub size: String,
    pub start: usize,
}

/// The whole analysis record: instruction count plus variable list.
#[derive(Debug, Clone)]
pub struct ResultAnalysis {
    pub num_inst: usize,
    pub vars: Vec<Variable>,
}

/// The byte size (or size formula) that belongs to a declared type name.
pub open spec fn spec_type_size(ty: Seq<char>) -> Seq<char> {
    if ty == "i8"@ || ty == "u8"@ || ty == "bool"@ {
        "1"@
    } else if ty == "i16"@ || ty == "u16"@ {
        "2"@
    } else if ty == "i32"@ || ty == "u32"@ || ty == "f32"@ || ty == "isize"@ || ty == "usize"@ {
        "4"@
    } else if ty == "i64"@ || ty == "u64"@ || ty == "f64"@ {
        "8"@
    } else if ty == "Vec < i32 >"@ {
        "4*len"@
    } else if ty == "Vec < Vec < i32 > >"@ {
        "4*nR*nC"@
    } else {
        "unknown"@
    }
}

/// Binds a declared type name to its size in bytes, or to a formula for the
/// sized collections.  Sizes assume a 32-bit word, as the sampled bit
/// positions do.
pub fn type_size(type_str: &str) -> (r: String)
    ensures
        r@ == spec_type_size(type_str@),
{
    let r: &str = if str_eq(type_str, "i8") || str_eq(type_str, "u8") || str_eq(type_str, "bool") {
        "1"
    } else if str_eq(type_str, "i16") || str_eq(type_str, "u16") {
        "2"
    } else if str_eq(type_str, "i32") || str_eq(type_str, "u32") || str_eq(type_str, "f32")
        || str_eq(type_str, "isize") || str_eq(type_str, "usize") {
        "4"
    } else if str_eq(type_str, "i64") || str_eq(type_str, "u64") || str_eq(type_str, "f64") {
        "8"
    } else if str_eq(type_str, "Vec < i32 >") {
        "4*len"
    } else if str_eq(type_str, "Vec < Vec < i32 > >") {
        "4*nR*nC"
    } else {
        "unknown"
    };
    r.to_owned()
}

} // verus!
