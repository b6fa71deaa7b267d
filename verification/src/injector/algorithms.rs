//! The instrumented kernels: each algorithm re-expressed as a sequence of
//! logical instructions over its redundant working variables.  After every
//! instruction the tick counter advances and, exactly when it reaches the
//! scheduled time, the injector's bit flip lands.  The rendezvous of the
//! concurrent design is thereby kept literally: instruction `k + 1` never
//! runs before the decision about tick `k` is made.

use crate::hardened::{
    all_coherent, hmat_square, mat_all_coherent, mat_read, mat_values_of, mat_write, values_of,
    vec_read, vec_swap, Hardened, IncoherenceError,
};
use crate::injector::{
    clone_hvec, flat_cells, flatten_cells, inject_bubble, inject_matrix, inject_rel_bubble,
    inject_rel_matrix, inject_rel_selection, inject_selection, BubbleSortVariables, BubbleTarget,
    MatrixMultiplicationVariables, MatrixTarget, SelectionSortVariables, SelectionTarget,
};
use crate::specs::{sorted, wrap_dot};
use vstd::prelude::*;

verus! {

broadcast use crate::injector::lemma_flip_usize_changes, crate::injector::lemma_flip_i32_changes;

/// The fault has not landed yet: its scheduled tick lies beyond every tick
/// counted so far (a time of zero never fires, since ticks are 1-based).
pub open spec fn not_yet_fired(time: usize, counter: usize) -> bool {
    time == 0 || time > counter
}

/// Loop progress through a redundant counter: distance from `x` to `n`
/// while both are trustworthy, zero the moment either is corrupted (the
/// next checked use of the corrupted pair ends the trial).
pub open spec fn count_measure(x: Hardened<usize>, n: Hardened<usize>) -> int {
    if x.coherent() && n.coherent() && x.cp1 <= n.cp1 {
        n.cp1 - x.cp1
    } else {
        0
    }
}

/// One synchronization point of a selection-sort run: the counter advances
/// (saturating), and exactly when it reaches the scheduled time the fault
/// lands.
fn tick_selection(
    vars: &mut SelectionSortVariables,
    counter: &mut usize,
    target: &SelectionTarget,
    time: usize,
    bit: usize,
)
    requires
        bit < 32,
    ensures
        *old(counter) < usize::MAX ==> *final(counter) == *old(counter) + 1,
        *old(counter) == usize::MAX ==> *final(counter) == usize::MAX,
        (*old(counter) < usize::MAX && *old(counter) + 1 == time) ==> inject_rel_selection(
            *old(vars),
            *final(vars),
            *target,
            bit,
        ),
        !(*old(counter) < usize::MAX && *old(counter) + 1 == time) ==> *final(vars) == *old(vars),
        final(vars).vec@.len() == old(vars).vec@.len(),
{
    if *counter < usize::MAX {
        *counter += 1;
        if *counter == time {
            inject_selection(vars, target, bit);
        }
    }
}

/// Runs one selection-sort trial: the instrumented kernel with the fault
/// scheduled for tick `time` on `target`.  Returns the trial's outcome and
/// the number of ticks the run emitted.
///
/// A fault whose time lies beyond the run's last tick is never applied, so
/// such a trial is silent and its output is the fault-free reference: a
/// sorted permutation of the input.
pub fn runner_selection_sort(
    vars: &mut SelectionSortVariables,
    target: &SelectionTarget,
    time: usize,
    bit: usize,
) -> (r: (Result<Vec<Hardened<i32>>, IncoherenceError>, usize))
    requires
        bit < 32,
    ensures
        final(vars).vec@.len() == old(vars).vec@.len(),
        r.0 is Ok ==> r.0->Ok_0@ == final(vars).vec@,
        (all_coherent(old(vars).vec@) && old(vars).vec@.len() >= 1 && not_yet_fired(time, r.1))
            ==> {
            &&& r.0 is Ok
            &&& all_coherent(final(vars).vec@)
            &&& sorted(values_of(final(vars).vec@))
            &&& final(vars).vec@.to_multiset() == old(vars).vec@.to_multiset()
        },
{
    let mut counter: usize = 0;
    let res = selection_trial(vars, target, time, bit, &mut counter);
    (res, counter)
}

fn selection_trial(
    vars: &mut SelectionSortVariables,
    target: &SelectionTarget,
    time: usize,
    bit: usize,
    counter: &mut usize,
) -> (r: Result<Vec<Hardened<i32>>, IncoherenceError>)
    requires
        bit < 32,
        *old(counter) == 0,
    ensures
        final(vars).vec@.len() == old(vars).vec@.len(),
        r is Ok ==> r->Ok_0@ == final(vars).vec@,
        (all_coherent(old(vars).vec@) && old(vars).vec@.len() >= 1 && not_yet_fired(time, *final(counter))) ==> {
            &&& r is Ok
            &&& all_coherent(final(vars).vec@)
            &&& sorted(values_of(final(vars).vec@))
            &&& final(vars).vec@.to_multiset() == old(vars).vec@.to_multiset()
        },
{
    vars.n = Hardened::from(vars.vec.len());
    tick_selection(vars, counter, target, time, bit);  // 1: n = vec.len()
    vars.j = Hardened::from(0usize);
    tick_selection(vars, counter, target, time, bit);  // 2: j = 0
    vars.min = Hardened::from(10usize);
    tick_selection(vars, counter, target, time, bit);  // 3: min = 10
    vars.i = Hardened::from(0usize);
    tick_selection(vars, counter, target, time, bit);  // 4: i = 0
    loop
        invariant
            bit < 32,
            vars.vec@.len() == old(vars).vec@.len(),
            vars.n.coherent() ==> vars.n.cp1 == vars.vec@.len(),
            not_yet_fired(time, *counter) ==> vars.n.coherent() && vars.n.cp1 == vars.vec@.len()
                && vars.i.coherent() && vars.j.coherent() && vars.min.coherent(),
            (all_coherent(old(vars).vec@) && old(vars).vec@.len() >= 1 && not_yet_fired(time, *counter)) ==> {
                &&& vars.n.coherent()
                &&& vars.i.coherent()
                &&& vars.j.coherent()
                &&& vars.min.coherent()
                &&& vars.i.cp1 <= vars.n.cp1 - 1
                &&& all_coherent(vars.vec@)
                &&& vars.vec@.to_multiset() == old(vars).vec@.to_multiset()
                &&& forall|p: int, q: int|
                    0 <= p < q < vars.i.cp1 ==> vars.vec@[p].cp1 <= vars.vec@[q].cp1
                &&& forall|p: int, q: int|
                    0 <= p < vars.i.cp1 && vars.i.cp1 <= q < vars.n.cp1 ==> vars.vec@[p].cp1
                        <= vars.vec@[q].cp1
            },
        ensures
            vars.vec@.len() == old(vars).vec@.len(),
            (all_coherent(old(vars).vec@) && old(vars).vec@.len() >= 1 && not_yet_fired(time, *counter)) ==> {
                &&& all_coherent(vars.vec@)
                &&& vars.vec@.to_multiset() == old(vars).vec@.to_multiset()
                &&& forall|p: int, q: int|
                    0 <= p < q < vars.vec@.len() ==> vars.vec@[p].cp1 <= vars.vec@[q].cp1
            },
        decreases count_measure(vars.i, vars.n),
    {
        let nm1 = vars.n.sub(1)?;
        let more = vars.i.checked_lt(&nm1)?;
        if !more {
            proof {
                if all_coherent(old(vars).vec@) && old(vars).vec@.len() >= 1 && not_yet_fired(time, *counter) {
                    assert(vars.i.cp1 == vars.n.cp1 - 1);
                }
            }
            break ;
        }
        tick_selection(vars, counter, target, time, bit);  // 5: outer loop check
        vars.min.assign(vars.i)?;
        tick_selection(vars, counter, target, time, bit);  // 6: min = i
        let ip1 = vars.i.add(1)?;
        vars.j.assign(ip1)?;
        tick_selection(vars, counter, target, time, bit);  // 7: j = i + 1
        let ghost i_before = vars.i;
        loop
            invariant
                bit < 32,
                vars.vec@.len() == old(vars).vec@.len(),
                vars.i.coherent() ==> vars.i == i_before,
                vars.n.coherent() ==> vars.n.cp1 == vars.vec@.len(),
                not_yet_fired(time, *counter) ==> vars.n.coherent() && vars.n.cp1
                    == vars.vec@.len() && vars.i.coherent() && vars.i == i_before
                    && vars.j.coherent() && vars.min.coherent(),
                (all_coherent(old(vars).vec@) && old(vars).vec@.len() >= 1 && not_yet_fired(time, *counter)) ==> {
                    &&& vars.n.coherent()
                    &&& vars.i.coherent()
                    &&& vars.j.coherent()
                    &&& vars.min.coherent()
                    &&& vars.i.cp1 < vars.n.cp1 - 1
                    &&& vars.i.cp1 <= vars.min.cp1 < vars.j.cp1
                    &&& vars.i.cp1 + 1 <= vars.j.cp1 <= vars.n.cp1
                    &&& all_coherent(vars.vec@)
                    &&& vars.vec@.to_multiset() == old(vars).vec@.to_multiset()
                    &&& forall|k: int|
                        vars.i.cp1 <= k < vars.j.cp1 ==> vars.vec@[vars.min.cp1 as int].cp1 <= (
                        #[trigger] vars.vec@[k]).cp1
                    &&& forall|p: int, q: int|
                        0 <= p < q < vars.i.cp1 ==> vars.vec@[p].cp1 <= vars.vec@[q].cp1
                    &&& forall|p: int, q: int|
                        0 <= p < vars.i.cp1 && vars.i.cp1 <= q < vars.n.cp1 ==> vars.vec@[p].cp1
                            <= vars.vec@[q].cp1
                },
            ensures
                vars.vec@.len() == old(vars).vec@.len(),
                vars.i.coherent() ==> vars.i == i_before,
                vars.n.coherent() ==> vars.n.cp1 == vars.vec@.len(),
                not_yet_fired(time, *counter) ==> vars.n.coherent() && vars.n.cp1
                    == vars.vec@.len() && vars.i.coherent() && vars.i == i_before
                    && vars.j.coherent() && vars.min.coherent(),
                (all_coherent(old(vars).vec@) && old(vars).vec@.len() >= 1 && not_yet_fired(time, *counter)) ==> {
                    &&& vars.n.coherent()
                    &&& vars.i.coherent()
                    &&& vars.min.coherent()
                    &&& vars.i.cp1 < vars.n.cp1 - 1
                    &&& vars.i.cp1 <= vars.min.cp1 < vars.n.cp1
                    &&& vars.j.cp1 == vars.n.cp1
                    &&& all_coherent(vars.vec@)
                    &&& vars.vec@.to_multiset() == old(vars).vec@.to_multiset()
                    &&& forall|k: int|
                        vars.i.cp1 <= k < vars.n.cp1 ==> vars.vec@[vars.min.cp1 as int].cp1 <= (
                        #[trigger] vars.vec@[k]).cp1
                    &&& forall|p: int, q: int|
                        0 <= p < q < vars.i.cp1 ==> vars.vec@[p].cp1 <= vars.vec@[q].cp1
                    &&& forall|p: int, q: int|
                        0 <= p < vars.i.cp1 && vars.i.cp1 <= q < vars.n.cp1 ==> vars.vec@[p].cp1
                            <= vars.vec@[q].cp1
                },
            decreases count_measure(vars.j, vars.n),
        {
            let more_j = vars.j.checked_lt(&vars.n)?;
            if !more_j {
                break ;
            }
            tick_selection(vars, counter, target, time, bit);  // 8: inner loop check
            let vj = vec_read(&vars.vec, vars.j)?;
            let vmin = vec_read(&vars.vec, vars.min)?;
            if vj.checked_lt(&vmin)? {
                tick_selection(vars, counter, target, time, bit);  // 9: new minimum found
                vars.min.assign(vars.j)?;
                tick_selection(vars, counter, target, time, bit);  // 10: min = j
            }
            let jp1 = vars.j.add(1)?;
            vars.j.assign(jp1)?;
            tick_selection(vars, counter, target, time, bit);  // 11: j = j + 1
        }
        let ii = vars.i.inner()?;
        let mm = vars.min.inner()?;
        vec_swap(&mut vars.vec, ii, mm)?;
        proof {
            if all_coherent(old(vars).vec@) && old(vars).vec@.len() >= 1 && not_yet_fired(time, *counter) {
                assert forall|p: int, q: int|
                    0 <= p < q < vars.i.cp1 + 1 implies vars.vec@[p].cp1 <= vars.vec@[q].cp1 by {}
            }
        }
        tick_selection(vars, counter, target, time, bit);  // 12: swap
        let ip = vars.i.add(1)?;
        vars.i.assign(ip)?;
        tick_selection(vars, counter, target, time, bit);  // 13: i = i + 1
    }
    proof {
        if all_coherent(old(vars).vec@) && old(vars).vec@.len() >= 1 && not_yet_fired(time, *counter) {
            assert forall|p: int, q: int|
                0 <= p < q < vars.vec@.len() implies values_of(vars.vec@)[p] <= values_of(
                vars.vec@,
            )[q] by {
                assert(values_of(vars.vec@)[p] == vars.vec@[p].cp1);
                assert(values_of(vars.vec@)[q] == vars.vec@[q].cp1);
            }
        }
    }
    Ok(clone_hvec(&vars.vec))
}

/// Loop progress of a bubble pass: distance from `j` to the pass bound
/// `n - i - 1` while every pair involved is trustworthy.
pub open spec fn gap_measure(j: Hardened<usize>, i: Hardened<usize>, n: Hardened<usize>) -> int {
    if j.coherent() && i.coherent() && n.coherent() && i.cp1 < n.cp1 && j.cp1 <= n.cp1 - i.cp1
        - 1 {
        n.cp1 - i.cp1 - 1 - j.cp1
    } else {
        0
    }
}

/// One synchronization point of a bubble-sort run; as [`tick_selection`].
fn tick_bubble(
    vars: &mut BubbleSortVariables,
    counter: &mut usize,
    target: &BubbleTarget,
    time: usize,
    bit: usize,
)
    requires
        bit < 32,
    ensures
        *old(counter) < usize::MAX ==> *final(counter) == *old(counter) + 1,
        *old(counter) == usize::MAX ==> *final(counter) == usize::MAX,
        (*old(counter) < usize::MAX && *old(counter) + 1 == time) ==> inject_rel_bubble(
            *old(vars),
            *final(vars),
            *target,
            bit,
        ),
        !(*old(counter) < usize::MAX && *old(counter) + 1 == time) ==> *final(vars) == *old(vars),
        final(vars).vet@.len() == old(vars).vet@.len(),
{
    if *counter < usize::MAX {
        *counter += 1;
        if *counter == time {
            inject_bubble(vars, target, bit);
        }
    }
}

/// Runs one bubble-sort trial; as [`runner_selection_sort`], with bubble
/// sort's early exit kept.
pub fn runner_bubble_sort(
    vars: &mut BubbleSortVariables,
    target: &BubbleTarget,
    time: usize,
    bit: usize,
) -> (r: (Result<Vec<Hardened<i32>>, IncoherenceError>, usize))
    requires
        bit < 32,
    ensures
        final(vars).vet@.len() == old(vars).vet@.len(),
        r.0 is Ok ==> r.0->Ok_0@ == final(vars).vet@,
        (all_coherent(old(vars).vet@) && not_yet_fired(time, r.1)) ==> {
            &&& r.0 is Ok
            &&& all_coherent(final(vars).vet@)
            &&& sorted(values_of(final(vars).vet@))
            &&& final(vars).vet@.to_multiset() == old(vars).vet@.to_multiset()
        },
{
    let mut counter: usize = 0;
    let res = bubble_trial(vars, target, time, bit, &mut counter);
    (res, counter)
}

fn bubble_trial(
    vars: &mut BubbleSortVariables,
    target: &BubbleTarget,
    time: usize,
    bit: usize,
    counter: &mut usize,
) -> (r: Result<Vec<Hardened<i32>>, IncoherenceError>)
    requires
        bit < 32,
        *old(counter) == 0,
    ensures
        final(vars).vet@.len() == old(vars).vet@.len(),
        r is Ok ==> r->Ok_0@ == final(vars).vet@,
        (all_coherent(old(vars).vet@) && not_yet_fired(time, *final(counter))) ==> {
            &&& r is Ok
            &&& all_coherent(final(vars).vet@)
            &&& sorted(values_of(final(vars).vet@))
            &&& final(vars).vet@.to_multiset() == old(vars).vet@.to_multiset()
        },
{
    vars.n = Hardened::from(vars.vet.len());
    tick_bubble(vars, counter, target, time, bit);  // 1: n = vet.len()
    vars.i = Hardened::from(0usize);
    tick_bubble(vars, counter, target, time, bit);  // 2: i = 0
    loop
        invariant
            bit < 32,
            vars.vet@.len() == old(vars).vet@.len(),
            vars.n.coherent() ==> vars.n.cp1 == vars.vet@.len(),
            not_yet_fired(time, *counter) ==> vars.n.coherent() && vars.n.cp1 == vars.vet@.len()
                && vars.i.coherent(),
            (all_coherent(old(vars).vet@) && not_yet_fired(time, *counter)) ==> {
                &&& vars.i.cp1 <= vars.n.cp1
                &&& all_coherent(vars.vet@)
                &&& vars.vet@.to_multiset() == old(vars).vet@.to_multiset()
                &&& forall|p: int, q: int|
                    vars.n.cp1 - vars.i.cp1 <= p < q < vars.n.cp1 ==> vars.vet@[p].cp1
                        <= vars.vet@[q].cp1
                &&& forall|p: int, q: int|
                    0 <= p < vars.n.cp1 - vars.i.cp1 && vars.n.cp1 - vars.i.cp1 <= q < vars.n.cp1
                        ==> vars.vet@[p].cp1 <= vars.vet@[q].cp1
            },
        ensures
            vars.vet@.len() == old(vars).vet@.len(),
            (all_coherent(old(vars).vet@) && not_yet_fired(time, *counter)) ==> {
                &&& all_coherent(vars.vet@)
                &&& vars.vet@.to_multiset() == old(vars).vet@.to_multiset()
                &&& forall|p: int, q: int|
                    0 <= p < q < vars.vet@.len() ==> vars.vet@[p].cp1 <= vars.vet@[q].cp1
            },
        decreases count_measure(vars.i, vars.n),
    {
        let more = vars.i.checked_lt(&vars.n)?;
        if !more {
            break ;
        }
        tick_bubble(vars, counter, target, time, bit);  // 3: outer loop check
        vars.swapped = Hardened::from(false);
        tick_bubble(vars, counter, target, time, bit);  // 4: swapped = false
        vars.j = Hardened::from(0usize);
        tick_bubble(vars, counter, target, time, bit);  // 5: j = 0
        let ghost i_before = vars.i;
        loop
            invariant
                bit < 32,
                vars.vet@.len() == old(vars).vet@.len(),
                i_before.coherent() ==> i_before.cp1 < vars.vet@.len(),
                vars.i.coherent() ==> vars.i == i_before,
                vars.n.coherent() ==> vars.n.cp1 == vars.vet@.len(),
                not_yet_fired(time, *counter) ==> vars.n.coherent() && vars.n.cp1
                    == vars.vet@.len() && vars.i.coherent() && vars.i == i_before
                    && vars.j.coherent() && vars.swapped.coherent(),
                (all_coherent(old(vars).vet@) && not_yet_fired(time, *counter)) ==> {
                    &&& vars.j.cp1 <= vars.n.cp1 - vars.i.cp1 - 1
                    &&& all_coherent(vars.vet@)
                    &&& vars.vet@.to_multiset() == old(vars).vet@.to_multiset()
                    &&& forall|p: int, q: int|
                        vars.n.cp1 - vars.i.cp1 <= p < q < vars.n.cp1 ==> vars.vet@[p].cp1
                            <= vars.vet@[q].cp1
                    &&& forall|p: int, q: int|
                        0 <= p < vars.n.cp1 - vars.i.cp1 && vars.n.cp1 - vars.i.cp1 <= q
                            < vars.n.cp1 ==> vars.vet@[p].cp1 <= vars.vet@[q].cp1
                    &&& forall|k: int|
                        0 <= k < vars.j.cp1 ==> (#[trigger] vars.vet@[k]).cp1 <= vars.vet@[vars.j.cp1 as int].cp1
                    &&& !vars.swapped.cp1 ==> forall|k: int|
                        0 <= k < vars.j.cp1 ==> #[trigger] vars.vet@[k].cp1 <= vars.vet@[k
                            + 1].cp1
                },
            ensures
                vars.vet@.len() == old(vars).vet@.len(),
                vars.i.coherent() ==> vars.i == i_before,
                vars.n.coherent() ==> vars.n.cp1 == vars.vet@.len(),
                not_yet_fired(time, *counter) ==> vars.n.coherent() && vars.n.cp1
                    == vars.vet@.len() && vars.i.coherent() && vars.i == i_before
                    && vars.j.coherent() && vars.swapped.coherent(),
                (all_coherent(old(vars).vet@) && not_yet_fired(time, *counter)) ==> {
                    &&& vars.j.cp1 == vars.n.cp1 - vars.i.cp1 - 1
                    &&& all_coherent(vars.vet@)
                    &&& vars.vet@.to_multiset() == old(vars).vet@.to_multiset()
                    &&& forall|p: int, q: int|
                        vars.n.cp1 - vars.i.cp1 <= p < q < vars.n.cp1 ==> vars.vet@[p].cp1
                            <= vars.vet@[q].cp1
                    &&& forall|p: int, q: int|
                        0 <= p < vars.n.cp1 - vars.i.cp1 && vars.n.cp1 - vars.i.cp1 <= q
                            < vars.n.cp1 ==> vars.vet@[p].cp1 <= vars.vet@[q].cp1
                    &&& forall|k: int|
                        0 <= k < vars.j.cp1 ==> (#[trigger] vars.vet@[k]).cp1 <= vars.vet@[vars.j.cp1 as int].cp1
                    &&& !vars.swapped.cp1 ==> forall|k: int|
                        0 <= k < vars.j.cp1 ==> #[trigger] vars.vet@[k].cp1 <= vars.vet@[k
                            + 1].cp1
                },
            decreases gap_measure(vars.j, vars.i, vars.n),
        {
            let bound = vars.n.sub_hardened(vars.i)?.sub(1)?;
            let more_j = vars.j.checked_lt(&bound)?;
            if !more_j {
                break ;
            }
            tick_bubble(vars, counter, target, time, bit);  // 6: inner loop check
            let jp1 = vars.j.add(1)?;
            let vj = vec_read(&vars.vet, vars.j)?;
            let vjp = vec_read(&vars.vet, jp1)?;
            let xj = vj.inner()?;
            let xjp = vjp.inner()?;
            if xj > xjp {
                tick_bubble(vars, counter, target, time, bit);  // 7: order violated
                let jj = vars.j.inner()?;
                let jp = jp1.inner()?;
                vec_swap(&mut vars.vet, jj, jp)?;
                tick_bubble(vars, counter, target, time, bit);  // 8: swap
                vars.swapped = Hardened::from(true);
                tick_bubble(vars, counter, target, time, bit);  // 9: swapped = true
            }
            let jn = vars.j.add(1)?;
            vars.j.assign(jn)?;
            tick_bubble(vars, counter, target, time, bit);  // 10: j = j + 1
        }
        let cont = vars.swapped.inner()?;
        if !cont {
            tick_bubble(vars, counter, target, time, bit);  // 11: no swap in this pass
            proof {
                if all_coherent(old(vars).vet@) && not_yet_fired(time, *counter) {
                    let vs = values_of(vars.vet@);
                    assert forall|k: int| 0 <= k < vs.len() - 1 implies #[trigger] vs[k] <= vs[
                        k + 1
                    ] by {
                        assert(vs[k] == vars.vet@[k].cp1);
                        assert(vs[k + 1] == vars.vet@[k + 1].cp1);
                    }
                    crate::specs::lemma_sorted_from_adjacent(vs);
                    assert forall|p: int, q: int|
                        0 <= p < q < vars.vet@.len() implies vars.vet@[p].cp1
                        <= vars.vet@[q].cp1 by {
                        assert(vs[p] == vars.vet@[p].cp1);
                        assert(vs[q] == vars.vet@[q].cp1);
                    }
                }
            }
            break ;
        }
        let ip = vars.i.add(1)?;
        vars.i.assign(ip)?;
        tick_bubble(vars, counter, target, time, bit);  // 12: i = i + 1
    }
    proof {
        if all_coherent(old(vars).vet@) && not_yet_fired(time, *counter) {
            assert forall|p: int, q: int|
                0 <= p < q < vars.vet@.len() implies values_of(vars.vet@)[p] <= values_of(
                vars.vet@,
            )[q] by {
                assert(values_of(vars.vet@)[p] == vars.vet@[p].cp1);
                assert(values_of(vars.vet@)[q] == vars.vet@[q].cp1);
            }
        }
    }
    Ok(clone_hvec(&vars.vet))
}

/// One synchronization point of a matrix-multiplication run; as
/// [`tick_selection`].
fn tick_matrix(
    vars: &mut MatrixMultiplicationVariables,
    counter: &mut usize,
    target: &MatrixTarget,
    time: usize,
    bit: usize,
)
    requires
        bit < 32,
    ensures
        *old(counter) < usize::MAX ==> *final(counter) == *old(counter) + 1,
        *old(counter) == usize::MAX ==> *final(counter) == usize::MAX,
        (*old(counter) < usize::MAX && *old(counter) + 1 == time) ==> inject_rel_matrix(
            *old(vars),
            *final(vars),
            *target,
            bit,
        ),
        !(*old(counter) < usize::MAX && *old(counter) + 1 == time) ==> *final(vars) == *old(vars),
        final(vars).result@.len() == old(vars).result@.len(),
        forall|x: int|
            0 <= x < old(vars).result@.len() ==> (#[trigger] final(vars).result@[x])@.len()
                == old(vars).result@[x]@.len(),
{
    if *counter < usize::MAX {
        *counter += 1;
        if *counter == time {
            inject_matrix(vars, target, bit);
        }
    }
}

/// Runs one matrix-multiplication trial; as [`runner_selection_sort`].  The
/// output of a silent trial is the result matrix flattened row by row.
pub fn runner_matrix_multiplication(
    vars: &mut MatrixMultiplicationVariables,
    target: &MatrixTarget,
    time: usize,
    bit: usize,
) -> (r: (Result<Vec<Hardened<i32>>, IncoherenceError>, usize))
    requires
        bit < 32,
    ensures
        r.0 is Ok ==> r.0->Ok_0@ == flat_cells(final(vars).result@),
        (hmat_square(old(vars).a@, old(vars).a@.len() as nat) && hmat_square(
            old(vars).b@,
            old(vars).a@.len() as nat,
        ) && mat_all_coherent(old(vars).a@) && mat_all_coherent(old(vars).b@) && not_yet_fired(
            time,
            r.1,
        )) ==> {
            &&& r.0 is Ok
            &&& final(vars).result@.len() == old(vars).a@.len()
            &&& forall|x: int|
                0 <= x < old(vars).a@.len() ==> (#[trigger] final(vars).result@[x])@.len() == old(
                    vars,
                ).a@.len()
            &&& mat_all_coherent(final(vars).result@)
            &&& forall|x: int, y: int|
                0 <= x < old(vars).a@.len() && 0 <= y < old(vars).a@.len() ==> (
                #[trigger] final(vars).result@[x]@[y]).cp1 == wrap_dot(
                    mat_values_of(old(vars).a@),
                    mat_values_of(old(vars).b@),
                    x,
                    y,
                    old(vars).a@.len() as int,
                )
        },
{
    let mut counter: usize = 0;
    let res = matrix_trial(vars, target, time, bit, &mut counter);
    (res, counter)
}

fn matrix_trial(
    vars: &mut MatrixMultiplicationVariables,
    target: &MatrixTarget,
    time: usize,
    bit: usize,
    counter: &mut usize,
) -> (r: Result<Vec<Hardened<i32>>, IncoherenceError>)
    requires
        bit < 32,
        *old(counter) == 0,
    ensures
        r is Ok ==> r->Ok_0@ == flat_cells(final(vars).result@),
        (hmat_square(old(vars).a@, old(vars).a@.len() as nat) && hmat_square(
            old(vars).b@,
            old(vars).a@.len() as nat,
        ) && mat_all_coherent(old(vars).a@) && mat_all_coherent(old(vars).b@) && not_yet_fired(
            time,
            *final(counter),
        )) ==> {
            &&& r is Ok
            &&& final(vars).result@.len() == old(vars).a@.len()
            &&& forall|x: int|
                0 <= x < old(vars).a@.len() ==> (#[trigger] final(vars).result@[x])@.len() == old(
                    vars,
                ).a@.len()
            &&& mat_all_coherent(final(vars).result@)
            &&& forall|x: int, y: int|
                0 <= x < old(vars).a@.len() && 0 <= y < old(vars).a@.len() ==> (
                #[trigger] final(vars).result@[x]@[y]).cp1 == wrap_dot(
                    mat_values_of(old(vars).a@),
                    mat_values_of(old(vars).b@),
                    x,
                    y,
                    old(vars).a@.len() as int,
                )
        },
{
    let ghost ga = mat_values_of(old(vars).a@);
    let ghost gb = mat_values_of(old(vars).b@);
    let ghost n0 = old(vars).a@.len();
    vars.size = Hardened::from(vars.a.len());
    tick_matrix(vars, counter, target, time, bit);  // 1: size = a.len()
    let sz = vars.size.inner()?;
    let mut zero: Vec<Vec<Hardened<i32>>> = Vec::new();
    let mut p: usize = 0;
    while p < sz
        invariant
            p <= sz,
            zero@.len() == p,
            forall|x: int| 0 <= x < p ==> (#[trigger] zero@[x])@.len() == sz,
            forall|x: int| 0 <= x < p ==> all_coherent((#[trigger] zero@[x])@),
        decreases sz - p,
    {
        let mut row: Vec<Hardened<i32>> = Vec::new();
        let mut q: usize = 0;
        while q < sz
            invariant
                q <= sz,
                row@.len() == q,
                all_coherent(row@),
            decreases sz - q,
        {
            row.push(Hardened::from(0i32));
            q += 1;
        }
        zero.push(row);
        p += 1;
    }
    vars.result = zero;
    tick_matrix(vars, counter, target, time, bit);  // 2: result = zero matrix
    vars.i = Hardened::from(0usize);
    tick_matrix(vars, counter, target, time, bit);  // 3: i = 0
    vars.j = Hardened::from(0usize);
    tick_matrix(vars, counter, target, time, bit);  // 4: j = 0
    vars.k = Hardened::from(0usize);
    tick_matrix(vars, counter, target, time, bit);  // 5: k = 0
    loop
        invariant
            bit < 32,
            n0 == old(vars).a@.len(),
            ga == mat_values_of(old(vars).a@),
            gb == mat_values_of(old(vars).b@),
            sz == n0,
            vars.result@.len() == sz,
            forall|x: int| 0 <= x < sz ==> (#[trigger] vars.result@[x])@.len() == sz,
            vars.size.coherent() ==> vars.size.cp1 == sz,
            not_yet_fired(time, *counter) ==> vars.size.coherent() && vars.i.coherent()
                && vars.j.coherent() && vars.k.coherent(),
            (hmat_square(old(vars).a@, n0 as nat) && hmat_square(old(vars).b@, n0 as nat)
                && mat_all_coherent(old(vars).a@) && mat_all_coherent(old(vars).b@) && not_yet_fired(time, *counter)) ==> {
                &&& vars.a == old(vars).a
                &&& vars.b == old(vars).b
                &&& vars.i.cp1 <= sz
                &&& forall|x: int| 0 <= x < sz ==> all_coherent((#[trigger] vars.result@[x])@)
                &&& forall|x: int, y: int|
                    0 <= x < vars.i.cp1 && 0 <= y < sz ==> (#[trigger] vars.result@[x]@[y]).cp1
                        == wrap_dot(ga, gb, x, y, sz as int)
            },
        ensures
            vars.result@.len() == sz,
            sz == n0,
            forall|x: int| 0 <= x < sz ==> (#[trigger] vars.result@[x])@.len() == sz,
            (hmat_square(old(vars).a@, n0 as nat) && hmat_square(old(vars).b@, n0 as nat)
                && mat_all_coherent(old(vars).a@) && mat_all_coherent(old(vars).b@) && not_yet_fired(time, *counter)) ==> {
                &&& forall|x: int| 0 <= x < sz ==> all_coherent((#[trigger] vars.result@[x])@)
                &&& forall|x: int, y: int|
                    0 <= x < sz && 0 <= y < sz ==> (#[trigger] vars.result@[x]@[y]).cp1
                        == wrap_dot(ga, gb, x, y, sz as int)
            },
        decreases count_measure(vars.i, vars.size),
    {
        let more = vars.i.checked_lt(&vars.size)?;
        if !more {
            break ;
        }
        tick_matrix(vars, counter, target, time, bit);  // 6: outer loop check
        vars.j.assign(Hardened::from(0usize))?;
        tick_matrix(vars, counter, target, time, bit);  // 7: j = 0
        let ghost i_mid = vars.i;
        loop
            invariant
                bit < 32,
                n0 == old(vars).a@.len(),
                ga == mat_values_of(old(vars).a@),
                gb == mat_values_of(old(vars).b@),
                sz == n0,
                vars.result@.len() == sz,
                forall|x: int| 0 <= x < sz ==> (#[trigger] vars.result@[x])@.len() == sz,
                vars.size.coherent() ==> vars.size.cp1 == sz,
                vars.i.coherent() ==> vars.i == i_mid,
                i_mid.coherent() ==> i_mid.cp1 < sz,
                not_yet_fired(time, *counter) ==> vars.size.coherent() && vars.i.coherent()
                    && vars.i == i_mid && vars.j.coherent() && vars.k.coherent(),
                (hmat_square(old(vars).a@, n0 as nat) && hmat_square(old(vars).b@, n0 as nat)
                    && mat_all_coherent(old(vars).a@) && mat_all_coherent(old(vars).b@) && not_yet_fired(time, *counter)) ==> {
                    &&& vars.a == old(vars).a
                    &&& vars.b == old(vars).b
                    &&& vars.i.cp1 < sz
                    &&& vars.j.cp1 <= sz
                    &&& forall|x: int| 0 <= x < sz ==> all_coherent((#[trigger] vars.result@[x])@)
                    &&& forall|x: int, y: int|
                        0 <= x < vars.i.cp1 && 0 <= y < sz ==> (#[trigger] vars.result@[x]@[y]).cp1
                            == wrap_dot(ga, gb, x, y, sz as int)
                    &&& forall|y: int|
                        0 <= y < vars.j.cp1 ==> (#[trigger] vars.result@[vars.i.cp1 as int]@[y]).cp1
                            == wrap_dot(ga, gb, vars.i.cp1 as int, y, sz as int)
                },
            ensures
                sz == n0,
                vars.result@.len() == sz,
                forall|x: int| 0 <= x < sz ==> (#[trigger] vars.result@[x])@.len() == sz,
                vars.size.coherent() ==> vars.size.cp1 == sz,
                vars.i.coherent() ==> vars.i == i_mid,
                not_yet_fired(time, *counter) ==> vars.size.coherent() && vars.i.coherent()
                    && vars.i == i_mid && vars.j.coherent() && vars.k.coherent(),
                (hmat_square(old(vars).a@, n0 as nat) && hmat_square(old(vars).b@, n0 as nat)
                    && mat_all_coherent(old(vars).a@) && mat_all_coherent(old(vars).b@) && not_yet_fired(time, *counter)) ==> {
                    &&& vars.a == old(vars).a
                    &&& vars.b == old(vars).b
                    &&& vars.i.cp1 < sz
                    &&& vars.j.cp1 == sz
                    &&& forall|x: int| 0 <= x < sz ==> all_coherent((#[trigger] vars.result@[x])@)
                    &&& forall|x: int, y: int|
                        0 <= x < vars.i.cp1 && 0 <= y < sz ==> (#[trigger] vars.result@[x]@[y]).cp1
                            == wrap_dot(ga, gb, x, y, sz as int)
                    &&& forall|y: int|
                        0 <= y < vars.j.cp1 ==> (#[trigger] vars.result@[vars.i.cp1 as int]@[y]).cp1
                            == wrap_dot(ga, gb, vars.i.cp1 as int, y, sz as int)
                },
            decreases count_measure(vars.j, vars.size),
        {
            let more_j = vars.j.checked_lt(&vars.size)?;
            if !more_j {
                break ;
            }
            tick_matrix(vars, counter, target, time, bit);  // 8: middle loop check
            vars.acc = Hardened::from(0i32);
            tick_matrix(vars, counter, target, time, bit);  // 9: acc = 0
            vars.k.assign(Hardened::from(0usize))?;
            tick_matrix(vars, counter, target, time, bit);  // 10: k = 0
            let ghost i_in = vars.i;
            let ghost j_in = vars.j;
            loop
                invariant
                    bit < 32,
                    n0 == old(vars).a@.len(),
                    ga == mat_values_of(old(vars).a@),
                    gb == mat_values_of(old(vars).b@),
                    sz == n0,
                    vars.result@.len() == sz,
                    forall|x: int| 0 <= x < sz ==> (#[trigger] vars.result@[x])@.len() == sz,
                    vars.size.coherent() ==> vars.size.cp1 == sz,
                    vars.i.coherent() ==> vars.i == i_in,
                    vars.j.coherent() ==> vars.j == j_in,
                    not_yet_fired(time, *counter) ==> vars.size.coherent() && vars.i.coherent()
                        && vars.i == i_in && vars.j.coherent() && vars.j == j_in
                        && vars.k.coherent() && vars.acc.coherent(),
                    (hmat_square(old(vars).a@, n0 as nat) && hmat_square(old(vars).b@, n0 as nat)
                        && mat_all_coherent(old(vars).a@) && mat_all_coherent(old(vars).b@) && not_yet_fired(time, *counter)) ==> {
                        &&& vars.a == old(vars).a
                        &&& vars.b == old(vars).b
                        &&& vars.i.cp1 < sz
                        &&& vars.j.cp1 < sz
                        &&& vars.k.cp1 <= sz
                        &&& vars.acc.cp1 == wrap_dot(
                            ga,
                            gb,
                            vars.i.cp1 as int,
                            vars.j.cp1 as int,
                            vars.k.cp1 as int,
                        )
                        &&& forall|x: int|
                            0 <= x < sz ==> all_coherent((#[trigger] vars.result@[x])@)
                        &&& forall|x: int, y: int|
                            0 <= x < vars.i.cp1 && 0 <= y < sz ==> (
                            #[trigger] vars.result@[x]@[y]).cp1 == wrap_dot(
                                ga,
                                gb,
                                x,
                                y,
                                sz as int,
                            )
                        &&& forall|y: int|
                            0 <= y < vars.j.cp1 ==> (
                            #[trigger] vars.result@[vars.i.cp1 as int]@[y]).cp1 == wrap_dot(
                                ga,
                                gb,
                                vars.i.cp1 as int,
                                y,
                                sz as int,
                            )
                    },
                ensures
                    sz == n0,
                    vars.result@.len() == sz,
                    forall|x: int| 0 <= x < sz ==> (#[trigger] vars.result@[x])@.len() == sz,
                    vars.size.coherent() ==> vars.size.cp1 == sz,
                    vars.i.coherent() ==> vars.i == i_in,
                    vars.j.coherent() ==> vars.j == j_in,
                    not_yet_fired(time, *counter) ==> vars.size.coherent() && vars.i.coherent()
                        && vars.i == i_in && vars.j.coherent() && vars.j == j_in
                        && vars.k.coherent() && vars.acc.coherent(),
                    (hmat_square(old(vars).a@, n0 as nat) && hmat_square(old(vars).b@, n0 as nat)
                        && mat_all_coherent(old(vars).a@) && mat_all_coherent(old(vars).b@) && not_yet_fired(time, *counter)) ==> {
                        &&& vars.a == old(vars).a
                        &&& vars.b == old(vars).b
                        &&& vars.i.cp1 < sz
                        &&& vars.j.cp1 < sz
                        &&& vars.k.cp1 == sz
                        &&& vars.acc.cp1 == wrap_dot(
                            ga,
                            gb,
                            vars.i.cp1 as int,
                            vars.j.cp1 as int,
                            sz as int,
                        )
                        &&& forall|x: int|
                            0 <= x < sz ==> all_coherent((#[trigger] vars.result@[x])@)
                        &&& forall|x: int, y: int|
                            0 <= x < vars.i.cp1 && 0 <= y < sz ==> (
                            #[trigger] vars.result@[x]@[y]).cp1 == wrap_dot(
                                ga,
                                gb,
                                x,
                                y,
                                sz as int,
                            )
                        &&& forall|y: int|
                            0 <= y < vars.j.cp1 ==> (
                            #[trigger] vars.result@[vars.i.cp1 as int]@[y]).cp1 == wrap_dot(
                                ga,
                                gb,
                                vars.i.cp1 as int,
                                y,
                                sz as int,
                            )
                    },
                decreases count_measure(vars.k, vars.size),
            {
                let more_k = vars.k.checked_lt(&vars.size)?;
                if !more_k {
                    break ;
                }
                tick_matrix(vars, counter, target, time, bit);  // 11: inner loop check
                proof {
                    if hmat_square(old(vars).a@, n0 as nat) && hmat_square(old(vars).b@, n0 as nat)
                        && mat_all_coherent(old(vars).a@) && mat_all_coherent(old(vars).b@) && not_yet_fired(time, *counter) {
                        assert(vars.a@ == old(vars).a@);
                        assert(vars.b@ == old(vars).b@);
                        assert(old(vars).a@[vars.i.cp1 as int]@.len() == n0);
                        assert(old(vars).b@[vars.k.cp1 as int]@.len() == n0);
                        assert(all_coherent(old(vars).a@[vars.i.cp1 as int]@));
                        assert(all_coherent(old(vars).b@[vars.k.cp1 as int]@));
                    }
                }
                let aik = mat_read(&vars.a, vars.i, vars.k)?;
                let bkj = mat_read(&vars.b, vars.k, vars.j)?;
                proof {
                    if hmat_square(old(vars).a@, n0 as nat) && hmat_square(old(vars).b@, n0 as nat)
                        && mat_all_coherent(old(vars).a@) && mat_all_coherent(old(vars).b@) && not_yet_fired(time, *counter) {
                        assert(ga[vars.i.cp1 as int][vars.k.cp1 as int] == vars.a@[vars.i.cp1 as int]@[vars.k.cp1 as int].cp1);
                        assert(gb[vars.k.cp1 as int][vars.j.cp1 as int] == vars.b@[vars.k.cp1 as int]@[vars.j.cp1 as int].cp1);
                    }
                }
                let prod = aik.mul(bkj)?;
                let sum = vars.acc.add(prod)?;
                vars.acc.assign(sum)?;
                tick_matrix(vars, counter, target, time, bit);  // 12: acc update
                let kp = vars.k.add(1)?;
                vars.k.assign(kp)?;
                tick_matrix(vars, counter, target, time, bit);  // 13: k = k + 1
            }
            let ii = vars.i.inner()?;
            let jj = vars.j.inner()?;
            mat_write(&mut vars.result, ii, jj, vars.acc)?;
            tick_matrix(vars, counter, target, time, bit);  // 14: result cell written
            let jp = vars.j.add(1)?;
            vars.j.assign(jp)?;
            tick_matrix(vars, counter, target, time, bit);  // 15: j = j + 1
        }
        let ip = vars.i.add(1)?;
        vars.i.assign(ip)?;
        tick_matrix(vars, counter, target, time, bit);  // 16: i = i + 1
    }
    Ok(flatten_cells(&vars.result))
}

} // verus!
