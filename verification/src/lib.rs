//! A fault-injection study environment for redundantly-computed programs.
//!
//! Every scalar that a target algorithm works on is stored twice, in a
//! [`hardened::Hardened`] pair whose two copies must agree.  An injector can
//! corrupt exactly one copy of one variable at one logical instruction
//! boundary of a run; every later operation on that variable first checks
//! that the two copies still agree and reports a tagged error when they do
//! not.  Trials are classified as silent, detected (by tag), or fatal
//! (silent but with a wrong final result), and tallied over a batch.

pub mod analyzer;
pub mod fault_list_manager;
pub mod fault_env;
pub mod hardened;
pub mod input_data;
pub mod injector;
pub mod specs;
pub mod strutil;
