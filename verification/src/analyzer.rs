//! The outcome aggregator: consumes the trial outcomes of one batch (order
//! irrelevant), classifies each under its tag or as silent, and counts the
//! silent-but-wrong ones as fatal by comparing their output against the
//! fault-free reference.

use crate::hardened::{values_of, Hardened, IncoherenceError, IntoNestedVec};
use crate::injector::TestResult;
use vstd::multiset::Multiset;
use vstd::prelude::*;

verus! {

/// The tally of one batch: one counter per detection tag, plus the silent,
/// fatal and total counts.
#[derive(Debug, Clone, PartialEq, Eq, Structural)]
pub struct Faults {
    pub n_silent_fault: usize,
    pub n_assign_fault: usize,
    pub n_inner_fault: usize,
    pub n_sub_fault: usize,
    pub n_mul_fault: usize,
    pub n_add_fault: usize,
    pub n_indexmut_fault: usize,
    pub n_index_fault: usize,
    pub n_ord_fault: usize,
    pub n_partialord_fault: usize,
    pub n_partialeq_fault: usize,
    pub n_fatal_fault: usize,
    pub total_fault: usize,
}

/// Every outcome lands in exactly one of the silent or per-tag buckets, so
/// their sum is the batch total; a fatal outcome is always also silent.
pub open spec fn tallies_consistent(f: Faults) -> bool {
    &&& f.total_fault == f.n_silent_fault + f.n_assign_fault + f.n_inner_fault + f.n_sub_fault
        + f.n_mul_fault + f.n_add_fault + f.n_indexmut_fault + f.n_index_fault + f.n_ord_fault
        + f.n_partialord_fault + f.n_partialeq_fault
    &&& f.n_fatal_fault <= f.n_silent_fault
}

impl Faults {
    /// The empty tally a batch starts from.
    pub fn new() -> (r: Faults)
        ensures
            r == (Faults {
                n_silent_fault: 0usize,
                n_assign_fault: 0usize,
                n_inner_fault: 0usize,
                n_sub_fault: 0usize,
                n_mul_fault: 0usize,
                n_add_fault: 0usize,
                n_indexmut_fault: 0usize,
                n_index_fault: 0usize,
                n_ord_fault: 0usize,
                n_partialord_fault: 0usize,
                n_partialeq_fault: 0usize,
                n_fatal_fault: 0usize,
                total_fault: 0usize,
            }),
    {
        Faults {
            n_silent_fault: 0,
            n_assign_fault: 0,
            n_inner_fault: 0,
            n_sub_fault: 0,
            n_mul_fault: 0,
            n_add_fault: 0,
            n_indexmut_fault: 0,
            n_index_fault: 0,
            n_ord_fault: 0,
            n_partialord_fault: 0,
            n_partialeq_fault: 0,
            n_fatal_fault: 0,
            total_fault: 0,
        }
    }

    /// A cursor over the tallies a report renders, in their fixed order.
    pub fn iter(&self) -> (r: FaultsIter)
        ensures
            r.spec_faults() == *self,
            r.spec_index() == 0,
    {
        FaultsIter { faults: self, index: 0 }
    }
}

/// The name of the tally at a cursor position.
pub open spec fn fault_entry_name(idx: int) -> Seq<char> {
    if idx == 0 {
        "n_silent_fault"@
    } else if idx == 1 {
        "n_assign_fault"@
    } else if idx == 2 {
        "n_inner_fault"@
    } else if idx == 3 {
        "n_sub_fail"@
    } else if idx == 4 {
        "n_mul_fault"@
    } else if idx == 5 {
        "n_add_fault"@
    } else if idx == 6 {
        "n_index_fault"@
    } else if idx == 7 {
        "n_partialord_fault"@
    } else {
        Seq::empty()
    }
}

/// The value of the tally at a cursor position.
pub open spec fn fault_entry_value(f: Faults, idx: int) -> usize {
    if idx == 0 {
        f.n_silent_fault
    } else if idx == 1 {
        f.n_assign_fault
    } else if idx == 2 {
        f.n_inner_fault
    } else if idx == 3 {
        f.n_sub_fault
    } else if idx == 4 {
        f.n_mul_fault
    } else if idx == 5 {
        f.n_add_fault
    } else if idx == 6 {
        f.n_index_fault
    } else if idx == 7 {
        f.n_partialord_fault
    } else {
        0
    }
}

/// Walks the eight tallies a report renders, yielding each name with its
/// count.
pub struct FaultsIter<'a> {
    faults: &'a Faults,
    index: usize,
}

impl<'a> FaultsIter<'a> {
    /// The tally being walked.
    pub closed spec fn spec_faults(&self) -> Faults {
        *self.faults
    }

    /// How many entries have been yielded.
    pub closed spec fn spec_index(&self) -> int {
        self.index as int
    }

    /// The next name/count pair, or `None` once all eight are out.
    pub fn next(&mut self) -> (r: Option<(String, usize)>)
        ensures
            final(self).spec_faults() == old(self).spec_faults(),
            old(self).spec_index() < 8 ==> {
                &&& r is Some
                &&& r->Some_0.0@ == fault_entry_name(old(self).spec_index())
                &&& r->Some_0.1 == fault_entry_value(old(self).spec_faults(), old(self).spec_index())
                &&& final(self).spec_index() == old(self).spec_index() + 1
            },
            old(self).spec_index() >= 8 ==> r is None && final(self).spec_index() == old(
                self,
            ).spec_index(),
    {
        let entry: Option<(String, usize)> = match self.index {
            0 => Some(("n_silent_fault".to_owned(), self.faults.n_silent_fault)),
            1 => Some(("n_assign_fault".to_owned(), self.faults.n_assign_fault)),
            2 => Some(("n_inner_fault".to_owned(), self.faults.n_inner_fault)),
            3 => Some(("n_sub_fail".to_owned(), self.faults.n_sub_fault)),
            4 => Some(("n_mul_fault".to_owned(), self.faults.n_mul_fault)),
            5 => Some(("n_add_fault".to_owned(), self.faults.n_add_fault)),
            6 => Some(("n_index_fault".to_owned(), self.faults.n_index_fault)),
            7 => Some(("n_partialord_fault".to_owned(), self.faults.n_partialord_fault)),
            _ => None,
        };
        if entry.is_some() {
            self.index = self.index + 1;
        }
        entry
    }
}

/// How many outcomes of the batch satisfy a predicate.
pub open spec fn count_matching(s: Seq<TestResult>, pred: spec_fn(TestResult) -> bool) -> int
    decreases s.len(),
{
    if s.len() == 0 {
        0
    } else {
        count_matching(s.drop_last(), pred) + if pred(s.last()) {
            1int
        } else {
            0int
        }
    }
}

/// How many outcomes are silent: the kernel ran to completion.
pub open spec fn count_silent(s: Seq<TestResult>) -> int {
    count_matching(s, |t: TestResult| t.spec_result() is Ok)
}

/// How many outcomes were detected under a given tag.
pub open spec fn count_tag(s: Seq<TestResult>, e: IncoherenceError) -> int {
    count_matching(
        s,
        |t: TestResult| t.spec_result() == Err::<Vec<Hardened<i32>>, IncoherenceError>(e),
    )
}

/// How many outcomes are fatal: silent, but with an output that differs
/// from the fault-free reference.
pub open spec fn count_fatal(s: Seq<TestResult>, reference: Seq<i32>) -> int {
    count_matching(
        s,
        |t: TestResult| t.spec_result() is Ok && values_of(t.spec_result()->Ok_0@) != reference,
    )
}

/// A count only sees the multiset of outcomes, never their order.
proof fn lemma_count_matching_multiset(s: Seq<TestResult>, pred: spec_fn(TestResult) -> bool)
    ensures
        count_matching(s, pred) == s.to_multiset().filter(pred).len(),
    decreases s.len(),
{
    broadcast use vstd::seq_lib::group_to_multiset_ensures;
    broadcast use vstd::multiset::group_multiset_axioms;

    if s.len() == 0 {
        assert(s.to_multiset() =~= Multiset::<TestResult>::empty());
        assert(s.to_multiset().filter(pred) =~= Multiset::<TestResult>::empty());
    } else {
        let butlast = s.drop_last();
        lemma_count_matching_multiset(butlast, pred);
        assert(butlast.push(s.last()) =~= s);
        assert(s.to_multiset() == butlast.to_multiset().insert(s.last()));
        if pred(s.last()) {
            assert(s.to_multiset().filter(pred) =~= butlast.to_multiset().filter(pred).insert(
                s.last(),
            ));
        } else {
            assert(s.to_multiset().filter(pred) =~= butlast.to_multiset().filter(pred));
        }
    }
}

/// Law: the aggregation is an order-independent reduction.  Two outcome
/// streams that hold the same trials, in any order, tally identically, so
/// running the aggregator twice over one stream yields identical tallies.
pub proof fn lemma_classification_order_independent(
    s1: Seq<TestResult>,
    s2: Seq<TestResult>,
    reference: Seq<i32>,
)
    requires
        s1.to_multiset() == s2.to_multiset(),
    ensures
        count_silent(s1) == count_silent(s2),
        forall|e: IncoherenceError| count_tag(s1, e) == count_tag(s2, e),
        count_fatal(s1, reference) == count_fatal(s2, reference),
{
    lemma_count_matching_multiset(s1, |t: TestResult| t.spec_result() is Ok);
    lemma_count_matching_multiset(s2, |t: TestResult| t.spec_result() is Ok);
    assert forall|e: IncoherenceError| count_tag(s1, e) == count_tag(s2, e) by {
        lemma_count_matching_multiset(
            s1,
            |t: TestResult| t.spec_result() == Err::<Vec<Hardened<i32>>, IncoherenceError>(e),
        );
        lemma_count_matching_multiset(
            s2,
            |t: TestResult| t.spec_result() == Err::<Vec<Hardened<i32>>, IncoherenceError>(e),
        );
    }
    lemma_count_matching_multiset(
        s1,
        |t: TestResult| t.spec_result() is Ok && values_of(t.spec_result()->Ok_0@) != reference,
    );
    lemma_count_matching_multiset(
        s2,
        |t: TestResult| t.spec_result() is Ok && values_of(t.spec_result()->Ok_0@) != reference,
    );
}

/// Element-wise equality of two plain vectors.
fn vec_i32_eq(a: &Vec<i32>, b: &Vec<i32>) -> (r: bool)
    ensures
        r <==> a@ == b@,
{
    if a.len() != b.len() {
        return false;
    }
    let mut k: usize = 0;
    while k < a.len()
        invariant
            a@.len() == b@.len(),
            k <= a@.len(),
            forall|p: int| 0 <= p < k ==> a@[p] == b@[p],
        decreases a@.len() - k,
    {
        if a[k] != b[k] {
            return false;
        }
        k += 1;
    }
    proof {
        assert(a@ =~= b@);
    }
    true
}

/// Classifies every outcome of a batch: a completed kernel counts as
/// silent (and additionally as fatal when its output differs from the
/// fault-free reference for the same input), a detected fault under its
/// tag.  The resulting tally satisfies the batch invariant: the silent
/// count plus the per-tag counts equals the total.
pub fn classify_outcomes(results: &Vec<TestResult>, reference: &Vec<i32>) -> (f: Faults)
    ensures
        f.total_fault == results@.len(),
        f.n_silent_fault == count_silent(results@),
        f.n_assign_fault == count_tag(results@, IncoherenceError::AssignFail),
        f.n_inner_fault == count_tag(results@, IncoherenceError::InnerFail),
        f.n_sub_fault == count_tag(results@, IncoherenceError::SubFail),
        f.n_mul_fault == count_tag(results@, IncoherenceError::MulFail),
        f.n_add_fault == count_tag(results@, IncoherenceError::AddFail),
        f.n_indexmut_fault == count_tag(results@, IncoherenceError::IndexMutFail),
        f.n_index_fault == count_tag(results@, IncoherenceError::IndexFail),
        f.n_ord_fault == count_tag(results@, IncoherenceError::OrdFail),
        f.n_partialord_fault == count_tag(results@, IncoherenceError::PartialOrdFail),
        f.n_partialeq_fault == count_tag(results@, IncoherenceError::PartialEqFail),
        f.n_fatal_fault == count_fatal(results@, reference@),
        tallies_consistent(f),
{
    let mut f = Faults::new();
    let mut idx: usize = 0;
    while idx < results.len()
        invariant
            idx <= results@.len(),
            f.total_fault == idx,
            f.n_silent_fault == count_silent(results@.subrange(0, idx as int)),
            f.n_assign_fault == count_tag(
                results@.subrange(0, idx as int),
                IncoherenceError::AssignFail,
            ),
            f.n_inner_fault == count_tag(
                results@.subrange(0, idx as int),
                IncoherenceError::InnerFail,
            ),
            f.n_sub_fault == count_tag(results@.subrange(0, idx as int), IncoherenceError::SubFail),
            f.n_mul_fault == count_tag(results@.subrange(0, idx as int), IncoherenceError::MulFail),
            f.n_add_fault == count_tag(results@.subrange(0, idx as int), IncoherenceError::AddFail),
            f.n_indexmut_fault == count_tag(
                results@.subrange(0, idx as int),
                IncoherenceError::IndexMutFail,
            ),
            f.n_index_fault == count_tag(
                results@.subrange(0, idx as int),
                IncoherenceError::IndexFail,
            ),
            f.n_ord_fault == count_tag(results@.subrange(0, idx as int), IncoherenceError::OrdFail),
            f.n_partialord_fault == count_tag(
                results@.subrange(0, idx as int),
                IncoherenceError::PartialOrdFail,
            ),
            f.n_partialeq_fault == count_tag(
                results@.subrange(0, idx as int),
                IncoherenceError::PartialEqFail,
            ),
            f.n_fatal_fault == count_fatal(results@.subrange(0, idx as int), reference@),
            tallies_consistent(f),
        decreases results@.len() - idx,
    {
        let ghost pre = results@.subrange(0, idx as int);
        let ghost post = results@.subrange(0, idx as int + 1);
        proof {
            assert(post.drop_last() =~= pre);
            assert(post.last() == results@[idx as int]);
        }
        let res = results[idx].get_result();
        match res {
            Ok(v) => {
                f.n_silent_fault = f.n_silent_fault + 1;
                let flat = v.into_nested_vec();
                if !vec_i32_eq(&flat, reference) {
                    f.n_fatal_fault = f.n_fatal_fault + 1;
                }
            },
            Err(tag) => {
                match tag {
                    IncoherenceError::AssignFail => {
                        f.n_assign_fault = f.n_assign_fault + 1;
                    },
                    IncoherenceError::AddFail => {
                        f.n_add_fault = f.n_add_fault + 1;
                    },
                    IncoherenceError::MulFail => {
                        f.n_mul_fault = f.n_mul_fault + 1;
                    },
                    IncoherenceError::InnerFail => {
                        f.n_inner_fault = f.n_inner_fault + 1;
                    },
                    IncoherenceError::SubFail => {
                        f.n_sub_fault = f.n_sub_fault + 1;
                    },
                    IncoherenceError::IndexMutFail => {
                        f.n_indexmut_fault = f.n_indexmut_fault + 1;
                    },
                    IncoherenceError::IndexFail => {
                        f.n_index_fault = f.n_index_fault + 1;
                    },
                    IncoherenceError::OrdFail => {
                        f.n_ord_fault = f.n_ord_fault + 1;
                    },
                    IncoherenceError::PartialOrdFail => {
                        f.n_partialord_fault = f.n_partialord_fault + 1;
                    },
                    IncoherenceError::PartialEqFail => {
                        f.n_partialeq_fault = f.n_partialeq_fault + 1;
                    },
                }
            },
        }
        f.total_fault = f.total_fault + 1;
        idx += 1;
    }
    proof {
        assert(results@.subrange(0, results@.len() as int) =~= results@);
    }
    f
}

} // verus!
