//! Properties of the engine that relate several of its operations.
use crate::{work_list_of, Unordered};
use vstd::prelude::*;

verus! {

/// An engine that has never been given a task ends its sequence on the first poll:
/// with no slot and no queued output it is in the state in which `begin_poll`
/// returns `End`.
pub proof fn lemma_untouched_engine_ends<F, T>(u: Unordered<F, T>)
    requires
        u.tasks().len() == 0,
        u.outputs().len() == 0,
    ensures
        u.ended(),
{
}

/// Once every task has completed and every output has been handed out, the
/// sequence has ended for good: `begin_poll` returns `End` and leaves the tasks and
/// the queued outputs as they were, so every later poll returns `End` again and
/// none hands out an output.
pub proof fn lemma_end_is_final<F, T>(before: Unordered<F, T>, after: Unordered<F, T>)
    requires
        forall|i: int| 0 <= i < before.tasks().len() ==> before.tasks()[i] is None,
        before.outputs().len() == 0,
        after.tasks() == before.tasks(),
        after.outputs() == before.outputs(),
    ensures
        before.ended(),
        after.ended(),
{
}

/// A completed task delivers its output once: `complete` queues the output behind
/// those already queued and frees the slot, so the task is neither advanced nor
/// completed again, and each poll that hands out an output removes it from the
/// front of the queue.
pub proof fn lemma_completion_delivered_once<F, T>(
    before: Unordered<F, T>,
    after: Unordered<F, T>,
    i: int,
    output: T,
)
    requires
        before.has_task(i),
        after.tasks() == before.tasks().update(i, None),
        after.outputs() == before.outputs().push(output),
    ensures
        !after.has_task(i),
        after.tasks().len() == before.tasks().len(),
        forall|j: int| j != i ==> (after.has_task(j) == before.has_task(j)),
        after.outputs()[before.outputs().len() as int] == output,
        after.outputs().subrange(0, before.outputs().len() as int) == before.outputs(),
{
    assert(after.outputs().subrange(0, before.outputs().len() as int) =~= before.outputs());
}

/// A pushed task is advanced in the next cycle without any wakeup: every freshly
/// pushed slot is on the cycle's work list.
pub proof fn lemma_fresh_slot_is_worked(
    list: Seq<usize>,
    fresh: Seq<usize>,
    woken: Seq<bool>,
    i: usize,
)
    requires
        work_list_of(list, fresh, woken),
        fresh.contains(i),
    ensures
        list.contains(i),
{
    let k = choose|k: int| 0 <= k < fresh.len() && fresh[k] == i;
    assert(list.subrange(0, fresh.len() as int)[k] == list[k]);
}

/// A recorded wakeup is never lost: a slot whose bit is set in the active wake set
/// when a cycle swaps the sets is on that cycle's work list.
pub proof fn lemma_woken_slot_is_worked(
    list: Seq<usize>,
    fresh: Seq<usize>,
    woken: Seq<bool>,
    i: usize,
)
    requires
        work_list_of(list, fresh, woken),
        i < woken.len(),
        woken[i as int],
    ensures
        list.contains(i),
{
    let n = fresh.len() as int;
    let rest = list.subrange(n, list.len() as int);
    assert(rest.contains(i));
    let k = choose|k: int| 0 <= k < rest.len() && rest[k] == i;
    assert(list[n + k] == i);
}

/// Each slot appears at most once among a cycle's woken slots, so a task woken
/// many times before a cycle is advanced once for those wakeups.
pub proof fn lemma_woken_slots_distinct(
    list: Seq<usize>,
    fresh: Seq<usize>,
    woken: Seq<bool>,
    a: int,
    b: int,
)
    requires
        work_list_of(list, fresh, woken),
        fresh.len() <= a < b < list.len(),
    ensures
        list[a] != list[b],
{
}

} // verus!
