//! Wake-tracking buffers: a bit set of woken slots with an access state, and the
//! pair of them that a poll cycle swaps between.
use crate::bit_set::BitSet;
use vstd::prelude::*;

verus! {

/// Who may touch a wake set.
#[derive(PartialEq, Eq, Structural, Clone, Copy, Debug)]
pub enum Access {
    /// Only the owner, which may resize and drain it.
    Exclusive,
    /// Any wake handle, which may only set single bits in it.
    Shared,
}

/// A bit set of woken slot indices, with the state that says who may touch it.
pub struct WakeSet {
    set: BitSet,
    access: Access,
}

impl WakeSet {
    /// Bit `i` is set while slot `i` has a pending wakeup.
    pub closed spec fn view(&self) -> Seq<bool> {
        self.set@
    }

    /// The current access state.
    pub closed spec fn access(&self) -> Access {
        self.access
    }

    pub closed spec fn wf(&self) -> bool {
        self.set.wf()
    }

    /// No wakeup is pending.
    pub open spec fn is_clear(&self) -> bool {
        forall|i: int| 0 <= i < self@.len() ==> !self@[i]
    }

    /// Constructs an empty set open to wake handles.
    pub fn new() -> (r: Self)
        ensures
            r.wf(),
            r@.len() == 0,
            r.access() == Access::Shared,
    {
        WakeSet { set: BitSet::new(), access: Access::Shared }
    }

    /// Takes exclusive access of a shared set.
    pub fn lock_write(&mut self)
        requires
            old(self).wf(),
            old(self).access() == Access::Shared,
        ensures
            final(self).wf(),
            final(self)@ == old(self)@,
            final(self).access() == Access::Exclusive,
    {
        self.access = Access::Exclusive;
    }

    /// Opens an exclusively held set to wake handles.
    pub fn unlock_write(&mut self)
        requires
            old(self).wf(),
            old(self).access() == Access::Exclusive,
        ensures
            final(self).wf(),
            final(self)@ == old(self)@,
            final(self).access() == Access::Shared,
    {
        self.access = Access::Shared;
    }

    /// The number of slots the set can track.
    pub fn capacity(&self) -> (r: usize)
        requires
            self.wf(),
        ensures
            r == self@.len(),
    {
        self.set.capacity()
    }

    /// Records a wakeup of slot `i`; only while shared.
    pub fn set(&mut self, i: usize)
        requires
            old(self).wf(),
            old(self).access() == Access::Shared,
            i < old(self)@.len(),
        ensures
            final(self).wf(),
            final(self).access() == Access::Shared,
            final(self)@ == old(self)@.update(i as int, true),
    {
        self.set.set(i);
    }

    /// Grows the set to track at least `n` slots; only while exclusive.
    pub fn reserve(&mut self, n: usize)
        requires
            old(self).wf(),
            old(self).access() == Access::Exclusive,
            n <= usize::MAX - 64,
        ensures
            final(self).wf(),
            final(self).access() == Access::Exclusive,
            final(self)@.len() >= n,
            final(self)@.len() >= old(self)@.len(),
            forall|i: int| 0 <= i < old(self)@.len() ==> final(self)@[i] == old(self)@[i],
            forall|i: int| old(self)@.len() <= i < final(self)@.len() ==> !final(self)@[i],
    {
        self.set.reserve(n);
    }

    /// Removes every pending wakeup and returns the slots in increasing order; only
    /// while exclusive.
    pub fn drain(&mut self) -> (r: Vec<usize>)
        requires
            old(self).wf(),
            old(self).access() == Access::Exclusive,
        ensures
            final(self).wf(),
            final(self).access() == Access::Exclusive,
            final(self)@.len() == old(self)@.len(),
            final(self).is_clear(),
            forall|a: int, b: int| 0 <= a < b < r@.len() ==> r@[a] < r@[b],
            forall|k: int| 0 <= k < r@.len() ==> r@[k] < old(self)@.len() && old(self)@[r@[k] as int],
            forall|i: int| 0 <= i < old(self)@.len() && old(self)@[i] ==> r@.contains(i as usize),
    {
        self.set.drain()
    }
}

/// The two wake sets of an engine: the active one, which wake handles write to, and
/// the alternate one, which the engine holds between cycles.
pub struct SharedWakeSet {
    active: WakeSet,
    alternate: WakeSet,
}

impl SharedWakeSet {
    /// The pending wakeups that the next cycle will drain.
    pub closed spec fn view(&self) -> Seq<bool> {
        self.active@
    }

    /// The alternate set's capacity.
    pub closed spec fn spare_capacity(&self) -> nat {
        self.alternate@.len()
    }

    /// The active set is shared, the alternate one exclusive and empty.
    pub closed spec fn wf(&self) -> bool {
        &&& self.active.wf()
        &&& self.alternate.wf()
        &&& self.active.access() == Access::Shared
        &&& self.alternate.access() == Access::Exclusive
        &&& self.alternate.is_clear()
    }

    /// Constructs the pair with no pending wakeups and no capacity.
    pub fn new() -> (r: Self)
        ensures
            r.wf(),
            r@.len() == 0,
    {
        let mut alternate = WakeSet::new();
        alternate.lock_write();
        SharedWakeSet { active: WakeSet::new(), alternate }
    }

    /// Records a wakeup of slot `i` in the active set. Returns false, recording
    /// nothing, for a slot beyond its capacity, which no cycle has handed out.
    pub fn notify(&mut self, i: usize) -> (r: bool)
        requires
            old(self).wf(),
        ensures
            final(self).wf(),
            r == (i < old(self)@.len()),
            final(self)@ == if r {
                old(self)@.update(i as int, true)
            } else {
                old(self)@
            },
            final(self).spare_capacity() == old(self).spare_capacity(),
    {
        if i < self.active.capacity() {
            self.active.set(i);
            true
        } else {
            false
        }
    }

    /// One cycle of the handoff: grows the alternate set past `max_index`, makes it
    /// the active one, takes the previously active set exclusively and drains it.
    /// Returns the drained slots in increasing order: every wakeup recorded before
    /// the call, once each. The new active set starts empty.
    pub fn cycle(&mut self, max_index: usize) -> (r: Vec<usize>)
        requires
            old(self).wf(),
            max_index < usize::MAX - 64,
        ensures
            final(self).wf(),
            final(self)@.len() > max_index,
            final(self)@.len() >= old(self).spare_capacity(),
            forall|i: int| 0 <= i < final(self)@.len() ==> !final(self)@[i],
            final(self).spare_capacity() == old(self)@.len(),
            forall|a: int, b: int| 0 <= a < b < r@.len() ==> r@[a] < r@[b],
            forall|k: int| 0 <= k < r@.len() ==> r@[k] < old(self)@.len() && old(self)@[r@[k] as int],
            forall|i: int| 0 <= i < old(self)@.len() && old(self)@[i] ==> r@.contains(i as usize),
    {
        if self.alternate.capacity() <= max_index {
            self.alternate.reserve(max_index + 1);
        }
        self.alternate.unlock_write();
        core::mem::swap(&mut self.active, &mut self.alternate);
        self.alternate.lock_write();
        self.alternate.drain()
    }
}

} // verus!
