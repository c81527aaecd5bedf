//! A growable set of small integers, stored as 64-bit words.
use vstd::prelude::*;

verus! {

/// Tests bit `j` of the word `w`.
pub open spec fn word_bit(w: u64, j: nat) -> bool {
    (w >> j) & 1u64 == 1u64
}

proof fn lemma_or_bit(w: u64, j: u64, k: u64)
    requires
        j < 64,
        k < 64,
    ensures
        ((w | (1u64 << j)) >> k) & 1u64 == 1u64 <==> (k == j || (w >> k) & 1u64 == 1u64),
{
    assert(((w | (1u64 << j)) >> k) & 1u64 == 1u64 <==> (k == j || (w >> k) & 1u64 == 1u64))
        by (bit_vector)
        requires
            j < 64,
            k < 64,
    ;
}

proof fn lemma_zero_bit(k: u64)
    requires
        k < 64,
    ensures
        (0u64 >> k) & 1u64 != 1u64,
{
    assert((0u64 >> k) & 1u64 != 1u64) by (bit_vector);
}

/// A set over `0..capacity`, one bit per member.
pub struct BitSet {
    words: Vec<u64>,
}

impl BitSet {
    /// Bit `i` of the set, for `i < self.capacity()`.
    pub closed spec fn view(&self) -> Seq<bool> {
        Seq::new(
            (self.words@.len() * 64) as nat,
            |i: int| word_bit(self.words@[i / 64], (i % 64) as nat),
        )
    }

    /// The capacity fits in a `usize`.
    pub closed spec fn wf(&self) -> bool {
        self.words@.len() * 64 <= usize::MAX
    }

    /// Constructs an empty set with no capacity.
    pub fn new() -> (r: Self)
        ensures
            r.wf(),
            r@.len() == 0,
    {
        BitSet { words: Vec::new() }
    }

    /// Constructs an empty set that can hold at least `n` members.
    pub fn with_capacity(n: usize) -> (r: Self)
        requires
            n <= usize::MAX - 64,
        ensures
            r.wf(),
            r@.len() >= n,
            forall|i: int| 0 <= i < r@.len() ==> !r@[i],
    {
        let mut s = BitSet::new();
        s.reserve(n);
        s
    }

    /// The number of members the set can hold.
    pub fn capacity(&self) -> (r: usize)
        requires
            self.wf(),
        ensures
            r == self@.len(),
    {
        self.words.len() * 64
    }

    /// Grows the set so that it can hold at least `n` members; members are kept and
    /// new positions are empty.
    pub fn reserve(&mut self, n: usize)
        requires
            old(self).wf(),
            n <= usize::MAX - 64,
        ensures
            final(self).wf(),
            final(self)@.len() >= n,
            final(self)@.len() >= old(self)@.len(),
            final(self)@.len() <= old(self)@.len() || final(self)@.len() < n + 64,
            forall|i: int| 0 <= i < old(self)@.len() ==> final(self)@[i] == old(self)@[i],
            forall|i: int| old(self)@.len() <= i < final(self)@.len() ==> !final(self)@[i],
    {
        let ghost before = *self;
        let need: usize = if n % 64 == 0 { n / 64 } else { n / 64 + 1 };
        while self.words.len() < need
            invariant
                need * 64 < n + 64,
                need * 64 >= n,
                self.words@.len() <= need || self.words@.len() == before.words@.len(),
                self.words@.len() >= before.words@.len(),
                before.wf(),
                forall|w: int|
                    0 <= w < before.words@.len() ==> self.words@[w] == before.words@[w],
                forall|w: int|
                    before.words@.len() <= w < self.words@.len() ==> self.words@[w] == 0u64,
            decreases need - self.words@.len(),
        {
            self.words.push(0u64);
        }
        assert forall|i: int| old(self)@.len() <= i < self@.len() implies !self@[i] by {
            lemma_zero_bit((i % 64) as u64);
        }
    }

    /// Adds `i` to the set.
    pub fn set(&mut self, i: usize)
        requires
            old(self).wf(),
            i < old(self)@.len(),
        ensures
            final(self).wf(),
            final(self)@ == old(self)@.update(i as int, true),
    {
        let w = i / 64;
        let b = i % 64;
        let word = self.words[w];
        self.words.set(w, word | (1u64 << (b as u64)));
        assert forall|k: int| 0 <= k < self@.len() implies self@[k] == old(self)@.update(
            i as int,
            true,
        )[k] by {
            if k / 64 == w as int {
                lemma_or_bit(word, b as u64, (k % 64) as u64);
            }
        }
        assert(self@ =~= old(self)@.update(i as int, true));
    }

    /// Tests whether `i` is in the set.
    pub fn test(&self, i: usize) -> (r: bool)
        requires
            self.wf(),
        ensures
            r == (i < self@.len() && self@[i as int]),
    {
        let w = i / 64;
        if w < self.words.len() {
            (self.words[w] >> ((i % 64) as u64)) & 1u64 == 1u64
        } else {
            false
        }
    }

    /// Removes every member, keeping the capacity.
    pub fn clear(&mut self)
        requires
            old(self).wf(),
        ensures
            final(self).wf(),
            final(self)@.len() == old(self)@.len(),
            forall|i: int| 0 <= i < final(self)@.len() ==> !final(self)@[i],
    {
        let mut w: usize = 0;
        while w < self.words.len()
            invariant
                self.words@.len() == old(self).words@.len(),
                old(self).wf(),
                w <= self.words@.len(),
                forall|v: int| 0 <= v < w ==> self.words@[v] == 0u64,
            decreases self.words@.len() - w,
        {
            self.words.set(w, 0u64);
            w += 1;
        }
        assert forall|i: int| 0 <= i < self@.len() implies !self@[i] by {
            lemma_zero_bit((i % 64) as u64);
        }
    }

    /// Removes every member and returns them in increasing order.
    pub fn drain(&mut self) -> (r: Vec<usize>)
        requires
            old(self).wf(),
        ensures
            final(self).wf(),
            final(self)@.len() == old(self)@.len(),
            forall|i: int| 0 <= i < final(self)@.len() ==> !final(self)@[i],
            forall|a: int, b: int| 0 <= a < b < r@.len() ==> r@[a] < r@[b],
            forall|k: int| 0 <= k < r@.len() ==> r@[k] < old(self)@.len() && old(self)@[r@[k] as int],
            forall|i: int| 0 <= i < old(self)@.len() && old(self)@[i] ==> r@.contains(i as usize),
    {
        let ghost before = *self;
        let mut r: Vec<usize> = Vec::new();
        let mut w: usize = 0;
        while w < self.words.len()
            invariant
                before.wf(),
                self.words@.len() == before.words@.len(),
                w <= self.words@.len(),
                forall|v: int| 0 <= v < w ==> self.words@[v] == 0u64,
                forall|v: int| w <= v < self.words@.len() ==> self.words@[v] == before.words@[v],
                forall|a: int, b: int| 0 <= a < b < r@.len() ==> r@[a] < r@[b],
                forall|k: int| 0 <= k < r@.len() ==> r@[k] < w * 64 && before@[r@[k] as int],
                forall|i: int| 0 <= i < w * 64 && before@[i] ==> r@.contains(i as usize),
            decreases self.words@.len() - w,
        {
            let word = self.words[w];
            if word != 0u64 {
                let mut b: u64 = 0;
                while b < 64
                    invariant
                        before.wf(),
                        self.words@.len() == before.words@.len(),
                        w < self.words@.len(),
                        word == before.words@[w as int],
                        b <= 64,
                        forall|a: int, c: int| 0 <= a < c < r@.len() ==> r@[a] < r@[c],
                        forall|k: int|
                            0 <= k < r@.len() ==> r@[k] < w * 64 + b && before@[r@[k] as int],
                        forall|i: int|
                            0 <= i < w * 64 + b && before@[i] ==> r@.contains(i as usize),
                    decreases 64 - b,
                {
                    if (word >> b) & 1u64 == 1u64 {
                        let ghost r0 = r@;
                        r.push(w * 64 + b as usize);
                        assert forall|i: int|
                            0 <= i < w * 64 + b + 1 && before@[i] implies r@.contains(
                            i as usize,
                        ) by {
                            if i < w * 64 + b {
                                assert(r0.contains(i as usize));
                                let k = choose|k: int| 0 <= k < r0.len() && r0[k] == i as usize;
                                assert(r@[k] == i as usize);
                            } else {
                                assert(r@[r@.len() - 1] == i as usize);
                            }
                        }
                    } else {
                        assert forall|i: int|
                            0 <= i < w * 64 + b + 1 && before@[i] implies r@.contains(
                            i as usize,
                        ) by {
                            if i == w * 64 + b {
                                assert(!before@[i]);
                            }
                        }
                    }
                    b += 1;
                }
                self.words.set(w, 0u64);
            } else {
                assert forall|i: int|
                    0 <= i < (w + 1) * 64 && before@[i] implies r@.contains(i as usize) by {
                    if i >= w * 64 {
                        lemma_zero_bit((i % 64) as u64);
                    }
                }
            }
            w += 1;
        }
        assert forall|i: int| 0 <= i < self@.len() implies !self@[i] by {
            lemma_zero_bit((i % 64) as u64);
        }
        r
    }
}

} // verus!
