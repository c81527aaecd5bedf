//! An unordered set of tasks driven to completion one cycle at a time.
//!
//! Tasks sit in a [`PinSlab`], each at a slot index. Two wake sets record which
//! slots were woken: wake handles write to the active one while the engine holds
//! the alternate one. A poll cycle swaps them, drains the previously active set,
//! and advances each task named there or pushed since the last cycle. Completed
//! outputs are queued and handed out one per poll.
//!
//! The engine itself does not advance tasks: [`Unordered::begin_poll`] returns the
//! cycle's work list, the caller advances each task it can get through
//! [`Unordered::task_mut`], reports completions with [`Unordered::complete`], and
//! ends the cycle with [`Unordered::finish_poll`].
use vstd::prelude::*;

pub mod bit_set;
pub mod pin_slab;
pub mod wake_set;
pub mod laws;
pub mod waker;

pub use bit_set::BitSet;
pub use pin_slab::PinSlab;
pub use wake_set::SharedWakeSet;
pub use waker::SharedWaker;

use std::collections::VecDeque;

verus! {

/// State shared between the engine and the wake handles of its tasks.
pub struct Shared<W> {
    /// The most recent outside wake target.
    pub waker: SharedWaker<W>,
    /// The wake sets that handles record wakeups in.
    pub wake_set: SharedWakeSet,
}

impl<W> Shared<W> {
    /// Constructs shared state with no wake target and no wakeups.
    pub fn new() -> (r: Self)
        ensures
            r.waker.key() is None,
            r.waker.target() is None,
            r.waker.spec_replacements() == 0,
            r.wake_set.wf(),
            r.wake_set@.len() == 0,
    {
        Shared { waker: SharedWaker::new(), wake_set: SharedWakeSet::new() }
    }

    /// Records a wakeup of slot `index`, as a wake handle does before it notifies
    /// `self.waker`. Returns whether it was recorded: only slots that a cycle has
    /// handed out lie within the active set.
    pub fn wake(&mut self, index: usize) -> (r: bool)
        requires
            old(self).wake_set.wf(),
        ensures
            final(self).wake_set.wf(),
            final(self).waker == old(self).waker,
            r == (index < old(self).wake_set@.len()),
            final(self).wake_set@ == if r {
                old(self).wake_set@.update(index as int, true)
            } else {
                old(self).wake_set@
            },
            final(self).wake_set.spare_capacity() == old(self).wake_set.spare_capacity(),
    {
        self.wake_set.notify(index)
    }
}

/// What a poll call is to do next.
pub enum Step<T> {
    /// Hand out this completed output.
    Ready(T),
    /// No task is left: the sequence has ended.
    End,
    /// Advance the tasks at these slots, then call `finish_poll`.
    Work(Vec<usize>),
}

/// An unordered collection of tasks of type `F` producing outputs of type `T`.
pub struct Unordered<F, T> {
    pollable: Vec<usize>,
    slab: PinSlab<F>,
    max_index: usize,
    results: VecDeque<T>,
}

impl<F, T> Unordered<F, T> {
    /// The task slots: `Some(task)` for each task not yet completed.
    pub closed spec fn tasks(&self) -> Seq<Option<F>> {
        self.slab@
    }

    /// Completed outputs not yet handed out, oldest first.
    pub closed spec fn outputs(&self) -> Seq<T> {
        self.results@
    }

    /// Slots pushed since the last cycle, to be advanced in the next one.
    pub closed spec fn fresh(&self) -> Seq<usize> {
        self.pollable@
    }

    /// The largest slot index used so far.
    pub closed spec fn spec_max_index(&self) -> nat {
        self.max_index as nat
    }

    /// No task is outstanding.
    pub open spec fn no_tasks(&self) -> bool {
        forall|i: int| 0 <= i < self.tasks().len() ==> self.tasks()[i] is None
    }

    /// Slot `i` holds an outstanding task.
    pub open spec fn has_task(&self, i: int) -> bool {
        0 <= i < self.tasks().len() && self.tasks()[i] is Some
    }

    /// The next poll ends the sequence: no output is queued and no task is left.
    pub open spec fn ended(&self) -> bool {
        self.outputs().len() == 0 && self.no_tasks()
    }

    pub closed spec fn wf(&self) -> bool {
        &&& self.slab.wf()
        &&& self.max_index <= self.slab@.len() <= self.max_index + 1
        &&& self.slab@.len() < usize::MAX - 65
        &&& forall|k: int| 0 <= k < self.pollable@.len() ==> self.pollable@[k] < self.slab@.len()
    }

    /// Constructs an empty collection.
    pub fn new() -> (r: Self)
        ensures
            r.wf(),
            r.tasks().len() == 0,
            r.outputs().len() == 0,
            r.fresh().len() == 0,
            r.spec_max_index() == 0,
            r.ended(),
    {
        Unordered {
            pollable: Vec::with_capacity(16),
            slab: PinSlab::new(),
            max_index: 0,
            results: VecDeque::new(),
        }
    }

    /// Tests whether no task is outstanding.
    pub fn is_empty(&self) -> (r: bool)
        requires
            self.wf(),
        ensures
            r == self.no_tasks(),
    {
        self.slab.is_empty()
    }

    /// Adds a task. It is stored in a free slot, or a new one, and that slot is
    /// advanced in the next cycle whatever its wakeups.
    pub fn push(&mut self, task: F)
        requires
            old(self).wf(),
            old(self).tasks().len() < usize::MAX - 66,
        ensures
            final(self).wf(),
            final(self).fresh().len() == old(self).fresh().len() + 1,
            final(self).fresh().drop_last() == old(self).fresh(),
            ({
                let i = final(self).fresh().last() as int;
                &&& 0 <= i <= old(self).tasks().len()
                &&& i < old(self).tasks().len() ==> old(self).tasks()[i] is None
                    && final(self).tasks() == old(self).tasks().update(i, Some(task))
                &&& i == old(self).tasks().len() ==> final(self).tasks() == old(
                    self,
                ).tasks().push(Some(task))
            }),
            final(self).outputs() == old(self).outputs(),
            final(self).spec_max_index() >= old(self).spec_max_index(),
    {
        let index = self.slab.insert(task);
        if index > self.max_index {
            self.max_index = index;
        }
        self.pollable.push(index);
        assert(self.pollable@.drop_last() =~= old(self).pollable@);
    }

    /// Starts a poll call. A queued output is handed out first. With no task left
    /// the sequence ends. Otherwise the wake target is registered under `key`,
    /// kept as it is when already registered under that key, and one cycle of the
    /// wake-set handoff runs: the work list holds the freshly pushed slots, then
    /// every slot woken since the last cycle in increasing order.
    pub fn begin_poll<W: Clone>(&mut self, shared: &mut Shared<W>, key: u64, waker: &W) -> (r:
        Step<T>)
        requires
            old(self).wf(),
            old(shared).wake_set.wf(),
        ensures
            final(self).wf(),
            final(shared).wake_set.wf(),
            final(self).tasks() == old(self).tasks(),
            final(self).spec_max_index() == old(self).spec_max_index(),
            old(self).outputs().len() > 0 ==> {
                &&& r == Step::Ready(old(self).outputs()[0])
                &&& final(self).outputs() == old(self).outputs().drop_first()
                &&& final(self).fresh() == old(self).fresh()
                &&& *final(shared) == *old(shared)
            },
            old(self).ended() ==> {
                &&& r is End
                &&& final(self).outputs() == old(self).outputs()
                &&& final(self).fresh() == old(self).fresh()
                &&& *final(shared) == *old(shared)
            },
            old(self).outputs().len() == 0 && !old(self).no_tasks() ==> {
                &&& r is Work
                &&& final(self).outputs().len() == 0
                &&& final(self).fresh().len() == 0
                &&& final(shared).waker.key() == Some(key)
                &&& old(shared).waker.key() == Some(key) ==> final(shared).waker == old(shared).waker
                &&& old(shared).waker.key() != Some(key) ==> replaced_once(
                    old(shared).waker.spec_replacements(),
                    final(shared).waker.spec_replacements(),
                )
                &&& final(shared).wake_set@.len() > old(self).spec_max_index()
                &&& final(shared).wake_set@.len() >= old(shared).wake_set.spare_capacity()
                &&& final(shared).wake_set.spare_capacity() == old(shared).wake_set@.len()
                &&& forall|i: int|
                    0 <= i < final(shared).wake_set@.len() ==> !final(shared).wake_set@[i]
                &&& work_list_of(r->Work_0@, old(self).fresh(), old(shared).wake_set@)
            },
    {
        match self.results.pop_front() {
            Some(value) => {
                return Step::Ready(value);
            },
            None => {},
        }
        if self.slab.is_empty() {
            return Step::End;
        }
        if !shared.waker.is_woken_by(key) {
            shared.waker.swap(key, waker.clone());
        }
        let mut woken = shared.wake_set.cycle(self.max_index);
        let mut list: Vec<usize> = Vec::new();
        core::mem::swap(&mut list, &mut self.pollable);
        let ghost fresh = list@;
        let ghost drained = woken@;
        list.append(&mut woken);
        proof {
            assert(list@.subrange(0, fresh.len() as int) =~= fresh);
            assert(list@.subrange(fresh.len() as int, list@.len() as int) =~= drained);
        }
        Step::Work(list)
    }

    /// The task at slot `index`, if it is outstanding, to be advanced.
    pub fn task_mut(&mut self, index: usize) -> (r: Option<&mut F>)
        requires
            old(self).wf(),
        ensures
            final(self).wf(),
            r is None <==> !old(self).has_task(index as int),
            r is None ==> *final(self) == *old(self),
            r is Some ==> {
                &&& old(self).tasks()[index as int] == Some(*r->0)
                &&& final(self).tasks() == old(self).tasks().update(index as int, Some(*final(r->0)))
                &&& final(self).outputs() == old(self).outputs()
                &&& final(self).fresh() == old(self).fresh()
                &&& final(self).spec_max_index() == old(self).spec_max_index()
            },
    {
        self.slab.get_mut(index)
    }

    /// Records that the task at slot `index` completed with `output`: the output is
    /// queued and the slot freed, so the task is never advanced again.
    pub fn complete(&mut self, index: usize, output: T)
        requires
            old(self).wf(),
            old(self).has_task(index as int),
        ensures
            final(self).wf(),
            final(self).outputs() == old(self).outputs().push(output),
            final(self).tasks() == old(self).tasks().update(index as int, None),
            final(self).fresh() == old(self).fresh(),
            final(self).spec_max_index() == old(self).spec_max_index(),
    {
        self.results.push_back(output);
        self.slab.remove(index);
    }

    /// Ends a poll cycle: hands out the oldest queued output, if any.
    pub fn finish_poll(&mut self) -> (r: Option<T>)
        requires
            old(self).wf(),
        ensures
            final(self).wf(),
            old(self).outputs().len() == 0 ==> r is None && final(self).outputs() == old(
                self,
            ).outputs(),
            old(self).outputs().len() > 0 ==> r == Some(old(self).outputs()[0])
                && final(self).outputs() == old(self).outputs().drop_first(),
            final(self).tasks() == old(self).tasks(),
            final(self).fresh() == old(self).fresh(),
            final(self).spec_max_index() == old(self).spec_max_index(),
    {
        self.results.pop_front()
    }
}

/// The replacement counter went from `before` to `after` by one replacement,
/// saturating at `u64::MAX`.
pub open spec fn replaced_once(before: nat, after: nat) -> bool {
    after == if before < u64::MAX {
        before + 1
    } else {
        before
    }
}

/// `list` is a cycle's work list: the fresh slots in order, then, in increasing
/// order, exactly the slots whose bit is set in `woken`.
pub open spec fn work_list_of(list: Seq<usize>, fresh: Seq<usize>, woken: Seq<bool>) -> bool {
    let n = fresh.len() as int;
    &&& n <= list.len()
    &&& list.subrange(0, n) == fresh
    &&& forall|a: int, b: int| n <= a < b < list.len() ==> list[a] < list[b]
    &&& forall|k: int| n <= k < list.len() ==> list[k] < woken.len() && woken[list[k] as int]
    &&& forall|i: int|
        0 <= i < woken.len() && woken[i] ==> list.subrange(n, list.len() as int).contains(
            i as usize,
        )
}

} // verus!
