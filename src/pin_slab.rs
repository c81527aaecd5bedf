//! Slot storage for tasks: values are addressed by a slot index, and freed slots
//! are reused by later insertions.
//!
//! Slots live in blocks of a fixed size. Growth adds a block and never moves the
//! slots already made, so a stored value keeps its place while it is stored.
use vstd::prelude::*;

verus! {

/// The number of occupied slots in `s`.
pub open spec fn occupied<T>(s: Seq<Option<T>>) -> nat
    decreases s.len(),
{
    if s.len() == 0 {
        0
    } else {
        occupied(s.drop_last()) + if s.last() is Some { 1nat } else { 0nat }
    }
}

proof fn lemma_occupied_push<T>(s: Seq<Option<T>>, v: Option<T>)
    ensures
        occupied(s.push(v)) == occupied(s) + if v is Some { 1nat } else { 0nat },
{
    assert(s.push(v).drop_last() =~= s);
}

proof fn lemma_occupied_update<T>(s: Seq<Option<T>>, i: int, v: Option<T>)
    requires
        0 <= i < s.len(),
    ensures
        occupied(s.update(i, v)) + (if s[i] is Some { 1nat } else { 0nat }) == occupied(s) + (
        if v is Some { 1nat } else { 0nat }),
    decreases s.len(),
{
    if i == s.len() - 1 {
        assert(s.update(i, v).drop_last() =~= s.drop_last());
    } else {
        lemma_occupied_update(s.drop_last(), i, v);
        assert(s.update(i, v).drop_last() =~= s.drop_last().update(i, v));
    }
}

proof fn lemma_occupied_le<T>(s: Seq<Option<T>>)
    ensures
        occupied(s) <= s.len(),
    decreases s.len(),
{
    if s.len() > 0 {
        lemma_occupied_le(s.drop_last());
    }
}

proof fn lemma_occupied_replace<T>(s: Seq<Option<T>>, i: int)
    requires
        0 <= i < s.len(),
        s[i] is Some,
    ensures
        forall|v: T| #[trigger] occupied(s.update(i, Some(v))) == occupied(s),
{
    assert forall|v: T| #[trigger] occupied(s.update(i, Some(v))) == occupied(s) by {
        lemma_occupied_update(s, i, Some(v));
    }
}

proof fn lemma_occupied_zero<T>(s: Seq<Option<T>>)
    ensures
        occupied(s) == 0 <==> forall|i: int| 0 <= i < s.len() ==> s[i] is None,
    decreases s.len(),
{
    if s.len() > 0 {
        lemma_occupied_zero(s.drop_last());
        if occupied(s) == 0 {
            assert forall|i: int| 0 <= i < s.len() implies s[i] is None by {
                if i < s.len() - 1 {
                    assert(s.drop_last()[i] == s[i]);
                }
            }
        }
        if forall|i: int| 0 <= i < s.len() ==> s[i] is None {
            assert forall|i: int| 0 <= i < s.drop_last().len() implies s.drop_last()[i] is None by {
                assert(s.drop_last()[i] == s[i]);
            }
        }
    }
}

/// The number of slots in each block.
pub const SLOTS_PER_BLOCK: usize = 32;

proof fn lemma_block_of(i: int, slots: int, nb: int)
    requires
        0 <= i < slots,
        slots <= nb * SLOTS_PER_BLOCK,
    ensures
        0 <= i / (SLOTS_PER_BLOCK as int) < nb,
        0 <= i % (SLOTS_PER_BLOCK as int) < SLOTS_PER_BLOCK,
        i / (SLOTS_PER_BLOCK as int) * SLOTS_PER_BLOCK + i % (SLOTS_PER_BLOCK as int) == i,
{
    assert(0 <= i / 32 < nb) by (nonlinear_arith)
        requires
            0 <= i < slots,
            slots <= nb * 32,
    ;
}

proof fn lemma_index_of(k: int, slots: int, nb: int)
    requires
        0 <= k == slots,
        slots <= nb * 32,
        nb == 0 || slots > (nb - 1) * 32,
    ensures
        slots == nb * 32 ==> k / 32 == nb && k % 32 == 0,
        slots < nb * 32 ==> k / 32 == nb - 1 && k % 32 == slots - (nb - 1) * 32,
{
    if slots == nb * 32 {
        assert(k / 32 == nb && k % 32 == 0) by (nonlinear_arith)
            requires
                k == nb * 32,
        ;
    } else {
        assert(k / 32 == nb - 1 && k % 32 == k - (nb - 1) * 32) by (nonlinear_arith)
            requires
                k < nb * 32,
                k > (nb - 1) * 32,
        ;
    }
}

/// Slots of `T`, each free or occupied by one value, kept in blocks of
/// `SLOTS_PER_BLOCK` slots.
pub struct PinSlab<T> {
    blocks: Vec<Vec<Option<T>>>,
    slots: usize,
    free: Vec<usize>,
    len: usize,
}

impl<T> PinSlab<T> {
    /// Slot `i` holds `Some(v)` while occupied by `v`.
    pub closed spec fn view(&self) -> Seq<Option<T>> {
        Seq::new(
            self.slots as nat,
            |i: int| self.blocks@[i / (SLOTS_PER_BLOCK as int)]@[i % (SLOTS_PER_BLOCK as int)],
        )
    }

    /// Every block but the last is full, and the last holds the remaining slots.
    closed spec fn wf_blocks(&self) -> bool {
        let nb = self.blocks@.len() as int;
        &&& self.slots <= nb * SLOTS_PER_BLOCK
        &&& nb == 0 || self.slots > (nb - 1) * SLOTS_PER_BLOCK
        &&& forall|b: int|
            0 <= b < nb ==> #[trigger] self.blocks@[b].len() == if (b + 1) * SLOTS_PER_BLOCK
                <= self.slots {
                (SLOTS_PER_BLOCK as int)
            } else {
                self.slots - b * SLOTS_PER_BLOCK
            }
    }

    /// The blocks are laid out as they should be, the free list names each free
    /// slot once, and `len` counts the occupied ones.
    pub closed spec fn wf(&self) -> bool {
        &&& self.wf_blocks()
        &&& self.free@.no_duplicates()
        &&& forall|k: int|
            0 <= k < self.free@.len() ==> self.free@[k] < self.slots && self@[self.free@[k] as int] is None
        &&& self.len == occupied(self@)
    }

    /// No slot is occupied.
    pub open spec fn spec_is_empty(&self) -> bool {
        forall|i: int| 0 <= i < self@.len() ==> self@[i] is None
    }

    /// Slot `i` is occupied.
    pub open spec fn contains(&self, i: int) -> bool {
        0 <= i < self@.len() && self@[i] is Some
    }

    /// Constructs a store with no slots.
    pub fn new() -> (r: Self)
        ensures
            r.wf(),
            r@.len() == 0,
    {
        let r = PinSlab { blocks: Vec::new(), slots: 0, free: Vec::new(), len: 0 };
        assert(r@ =~= Seq::<Option<T>>::empty());
        r
    }

    /// Tests whether no slot is occupied.
    pub fn is_empty(&self) -> (r: bool)
        requires
            self.wf(),
        ensures
            r == self.spec_is_empty(),
    {
        proof {
            lemma_occupied_zero(self@);
        }
        self.len == 0
    }

    /// Stores `value` in slot `i` of the existing slots.
    fn put(&mut self, i: usize, value: Option<T>)
        requires
            old(self).wf_blocks(),
            i < old(self).slots,
        ensures
            final(self).wf_blocks(),
            final(self).slots == old(self).slots,
            final(self).free == old(self).free,
            final(self).len == old(self).len,
            final(self)@ == old(self)@.update(i as int, value),
    {
        proof {
            lemma_block_of(i as int, self.slots as int, self.blocks@.len() as int);
        }
        let b = i / SLOTS_PER_BLOCK;
        let o = i % SLOTS_PER_BLOCK;
        assert(self.blocks@[b as int].len() > o);
        self.blocks[b].set(o, value);
        proof {
            assert forall|k: int| 0 <= k < self.slots implies self@[k] == old(self)@.update(
                i as int,
                value,
            )[k] by {
                lemma_block_of(k, self.slots as int, self.blocks@.len() as int);
            }
            assert forall|c: int| 0 <= c < self.blocks@.len() implies #[trigger] self.blocks@[c].len()
                == old(self).blocks@[c].len() by {}
        }
        assert(self@ =~= old(self)@.update(i as int, value));
    }

    /// Appends a slot holding `value`, adding a block when the last one is full.
    fn append(&mut self, value: Option<T>)
        requires
            old(self).wf_blocks(),
            old(self).slots < usize::MAX - SLOTS_PER_BLOCK,
        ensures
            final(self).wf_blocks(),
            final(self).slots == old(self).slots + 1,
            final(self).free == old(self).free,
            final(self).len == old(self).len,
            final(self)@ == old(self)@.push(value),
    {
        let nb = self.blocks.len();
        if self.slots == nb * SLOTS_PER_BLOCK {
            let mut block: Vec<Option<T>> = Vec::with_capacity(SLOTS_PER_BLOCK);
            block.push(value);
            self.blocks.push(block);
        } else {
            proof {
                assert(nb > 0);
            }
            self.blocks[nb - 1].push(value);
        }
        self.slots = self.slots + 1;
        proof {
            assert forall|c: int| 0 <= c < self.blocks@.len() implies #[trigger] self.blocks@[c].len()
                == if (c + 1) * SLOTS_PER_BLOCK <= self.slots {
                SLOTS_PER_BLOCK as int
            } else {
                self.slots - c * SLOTS_PER_BLOCK
            } by {
                if c < nb {
                    assert(old(self).blocks@[c].len() == if (c + 1) * SLOTS_PER_BLOCK <= old(self).slots {
                        SLOTS_PER_BLOCK as int
                    } else {
                        old(self).slots - c * SLOTS_PER_BLOCK
                    });
                }
            }
            assert forall|k: int| 0 <= k < self.slots implies self@[k] == old(self)@.push(value)[k] by {
                let q = k / (SLOTS_PER_BLOCK as int);
                let m = k % (SLOTS_PER_BLOCK as int);
                if k < old(self).slots {
                    lemma_block_of(k, old(self).slots as int, nb as int);
                    assert(old(self).blocks@[q].len() == if (q + 1) * SLOTS_PER_BLOCK <= old(
                        self,
                    ).slots {
                        SLOTS_PER_BLOCK as int
                    } else {
                        old(self).slots - q * SLOTS_PER_BLOCK
                    });
                    assert(m < old(self).blocks@[q].len());
                    assert(self.blocks@[q]@[m] == old(self).blocks@[q]@[m]);
                } else {
                    lemma_index_of(k, old(self).slots as int, nb as int);
                    if old(self).slots < nb * SLOTS_PER_BLOCK {
                        assert(old(self).blocks@[nb - 1].len() == old(self).slots - (nb - 1)
                            * SLOTS_PER_BLOCK);
                    }
                }
            }
        }
        assert(self@ =~= old(self)@.push(value));
    }

    /// Stores `value` in a free slot, or in a new one when none is free, and returns
    /// the slot's index.
    pub fn insert(&mut self, value: T) -> (r: usize)
        requires
            old(self).wf(),
            old(self)@.len() < usize::MAX - SLOTS_PER_BLOCK,
        ensures
            final(self).wf(),
            r <= old(self)@.len(),
            r < old(self)@.len() ==> old(self)@[r as int] is None && final(self)@ == old(
                self,
            )@.update(r as int, Some(value)),
            r == old(self)@.len() ==> final(self)@ == old(self)@.push(Some(value)),
    {
        match self.free.pop() {
            Some(i) => {
                proof {
                    lemma_occupied_update(self@, i as int, Some(value));
                    lemma_occupied_le(self@.update(i as int, Some(value)));
                }
                self.put(i, Some(value));
                self.len = self.len + 1;
                proof {
                    assert forall|k: int| 0 <= k < self.free@.len() implies self.free@[k]
                        < self.slots && self@[self.free@[k] as int] is None by {
                        assert(old(self).free@[k] == self.free@[k]);
                        assert(old(self).free@[old(self).free@.len() - 1] == i);
                    }
                }
                i
            },
            None => {
                proof {
                    lemma_occupied_push(self@, Some(value));
                    lemma_occupied_le(self@.push(Some(value)));
                }
                let i = self.slots;
                self.append(Some(value));
                self.len = self.len + 1;
                proof {
                    assert forall|k: int| 0 <= k < self.free@.len() implies self.free@[k]
                        < self.slots && self@[self.free@[k] as int] is None by {
                        assert(old(self).free@[k] == self.free@[k]);
                    }
                }
                i
            },
        }
    }

    /// The value in slot `i`, if it is occupied.
    pub fn get_mut(&mut self, i: usize) -> (r: Option<&mut T>)
        requires
            old(self).wf(),
        ensures
            final(self).wf(),
            r is None <==> !old(self).contains(i as int),
            r is None ==> *final(self) == *old(self),
            r is Some ==> old(self)@[i as int] == Some(*r->0) && final(self)@ == old(
                self,
            )@.update(i as int, Some(*final(r->0))),
    {
        if i >= self.slots {
            return None;
        }
        proof {
            lemma_block_of(i as int, self.slots as int, self.blocks@.len() as int);
        }
        let b = i / SLOTS_PER_BLOCK;
        let o = i % SLOTS_PER_BLOCK;
        assert(self.blocks@[b as int].len() > o);
        match self.blocks[b][o] {
            Some(_) => {
                proof {
                    lemma_occupied_replace(self@, i as int);
                }
            },
            None => {
                return None;
            },
        }
        let ghost before = *self;
        let r = self.blocks[b][o].as_mut();
        proof {
            let v = *final(r->0);
            let after = after_borrow(*self);
            assert forall|k: int| 0 <= k < before.slots implies after@[k] == before@.update(
                i as int,
                Some(v),
            )[k] by {
                lemma_block_of(k, before.slots as int, before.blocks@.len() as int);
            }
            assert forall|c: int| 0 <= c < before.blocks@.len() implies #[trigger] after.blocks@[c].len()
                == before.blocks@[c].len() by {}
            assert(after@ =~= before@.update(i as int, Some(v)));
        }
        r
    }

    /// Frees slot `i`, dropping its value; returns whether it was occupied.
    pub fn remove(&mut self, i: usize) -> (r: bool)
        requires
            old(self).wf(),
        ensures
            final(self).wf(),
            r == old(self).contains(i as int),
            final(self)@ == if r {
                old(self)@.update(i as int, None)
            } else {
                old(self)@
            },
    {
        if i >= self.slots {
            return false;
        }
        proof {
            lemma_block_of(i as int, self.slots as int, self.blocks@.len() as int);
        }
        let b = i / SLOTS_PER_BLOCK;
        let o = i % SLOTS_PER_BLOCK;
        assert(self.blocks@[b as int].len() > o);
        if self.blocks[b][o].is_some() {
            proof {
                lemma_occupied_update(self@, i as int, None);
            }
            self.put(i, None);
            self.len = self.len - 1;
            self.free.push(i);
            true
        } else {
            false
        }
    }
}

} // verus!
