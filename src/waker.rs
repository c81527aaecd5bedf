//! The cell holding the engine's most recent outside wake target.
use vstd::prelude::*;

verus! {

/// The most recent wake target, with the identity it was registered under and the
/// number of times it has been replaced.
pub struct SharedWaker<W> {
    current: Option<(u64, W)>,
    replacements: u64,
}

impl<W> SharedWaker<W> {
    /// The identity of the stored target, if any.
    pub closed spec fn key(&self) -> Option<u64> {
        match self.current {
            Some(c) => Some(c.0),
            None => None,
        }
    }

    /// The stored target, if any.
    pub closed spec fn target(&self) -> Option<W> {
        match self.current {
            Some(c) => Some(c.1),
            None => None,
        }
    }

    /// How many times a target has been stored.
    pub closed spec fn spec_replacements(&self) -> nat {
        self.replacements as nat
    }

    /// Constructs an empty cell.
    pub fn new() -> (r: Self)
        ensures
            r.key() is None,
            r.target() is None,
            r.spec_replacements() == 0,
    {
        SharedWaker { current: None, replacements: 0 }
    }

    /// Tests whether the stored target has identity `key`.
    pub fn is_woken_by(&self, key: u64) -> (r: bool)
        ensures
            r == (self.key() == Some(key)),
    {
        match &self.current {
            Some(c) => c.0 == key,
            None => false,
        }
    }

    /// Stores `waker` under identity `key`, replacing any previous target.
    pub fn swap(&mut self, key: u64, waker: W)
        ensures
            final(self).key() == Some(key),
            final(self).target() == Some(waker),
            final(self).spec_replacements() == if old(self).spec_replacements() < u64::MAX {
                old(self).spec_replacements() + 1
            } else {
                old(self).spec_replacements()
            },
    {
        self.current = Some((key, waker));
        if self.replacements < u64::MAX {
            self.replacements = self.replacements + 1;
        }
    }

    /// The number of times a target has been stored, saturating.
    pub fn replacements(&self) -> (r: u64)
        ensures
            r == self.spec_replacements(),
    {
        self.replacements
    }

    /// The target that a wakeup notifies; nothing to notify when empty.
    pub fn get(&self) -> (r: Option<&W>)
        ensures
            r == match self.target() {
                Some(w) => Some(&w),
                None => None::<&W>,
            },
    {
        match &self.current {
            Some(c) => Some(&c.1),
            None => None,
        }
    }
}

} // verus!
