//! Fixed-capacity circular store of samples.

use vstd::prelude::*;
use vstd::arithmetic::div_mod::{
    lemma_add_mod_noop, lemma_mod_add_multiples_vanish, lemma_mod_equivalence, lemma_small_mod,
};

verus! {

/// Mathematical model of a ring buffer: every slot is populated at all
/// times, and `cursor` is the slot that the next write overwrites.
pub struct Ring {
    pub slots: Seq<u64>,
    pub cursor: int,
}

impl Ring {
    /// The cursor names a slot; in particular there is at least one slot.
    pub open spec fn wf(self) -> bool {
        0 <= self.cursor < self.slots.len()
    }

    pub open spec fn capacity(self) -> int {
        self.slots.len() as int
    }

    /// A buffer of `capacity` zero samples with the cursor on slot 0.
    pub open spec fn zeroed(capacity: int) -> Ring {
        Ring { slots: Seq::new(capacity as nat, |i: int| 0u64), cursor: 0 }
    }

    /// The slot that the write after `writes` further writes goes to.
    pub open spec fn landing(self, writes: int) -> int {
        (self.cursor + writes) % self.capacity()
    }

    /// One write: the slot under the cursor takes `sample`, and the cursor
    /// moves on by one, wrapping at the capacity.
    pub open spec fn push(self, sample: u64) -> Ring {
        Ring {
            slots: self.slots.update(self.cursor, sample),
            cursor: (self.cursor + 1) % self.capacity(),
        }
    }

    /// The writes of `samples`, first to last.
    pub open spec fn push_all(self, samples: Seq<u64>) -> Ring
        decreases samples.len(),
    {
        if samples.len() == 0 {
            self
        } else {
            self.push_all(samples.drop_last()).push(samples.last())
        }
    }
}

/// Circular store of decoded samples.  All slots exist from construction on
/// (zero until first written); a write replaces the oldest slot's content.
pub struct RingBuffer {
    slots: Vec<u64>,
    cursor: usize,
}

impl View for RingBuffer {
    type V = Ring;

    closed spec fn view(&self) -> Ring {
        Ring { slots: self.slots@, cursor: self.cursor as int }
    }
}

impl RingBuffer {
    #[verifier::type_invariant]
    spec fn inv(self) -> bool {
        self.cursor < self.slots@.len()
    }

    /// A buffer of `capacity` zero-valued samples, write cursor at slot 0.
    pub fn new(capacity: usize) -> (ring: RingBuffer)
        requires
            capacity > 0,
        ensures
            ring@ == Ring::zeroed(capacity as int),
            ring@.wf(),
    {
        let mut slots: Vec<u64> = Vec::new();
        let mut i: usize = 0;
        while i < capacity
            invariant
                i <= capacity,
                slots@.len() == i,
                forall|j: int| 0 <= j < i ==> slots@[j] == 0u64,
            decreases capacity - i,
        {
            slots.push(0);
            i += 1;
        }
        assert(slots@ =~= Ring::zeroed(capacity as int).slots);
        RingBuffer { slots, cursor: 0 }
    }

    /// Overwrites the slot under the cursor and advances the cursor.
    pub fn push(&mut self, sample: u64)
        ensures
            final(self)@ == old(self)@.push(sample),
            old(self)@.wf(),
            final(self)@.wf(),
    {
        proof {
            use_type_invariant(&*self);
        }
        let capacity: usize = self.slots.len();
        let next: usize = (self.cursor + 1) % capacity;
        self.slots[self.cursor] = sample;
        self.cursor = next;
    }

    /// Writes `samples`, first to last.
    pub fn push_all(&mut self, samples: &[u64])
        ensures
            final(self)@ == old(self)@.push_all(samples@),
            old(self)@.wf(),
            final(self)@.wf(),
    {
        proof {
            use_type_invariant(&*self);
            assert(samples@.take(0) =~= Seq::<u64>::empty());
        }
        let mut i: usize = 0;
        while i < samples.len()
            invariant
                i <= samples@.len(),
                self@ == old(self)@.push_all(samples@.take(i as int)),
                self@.wf(),
            decreases samples@.len() - i,
        {
            proof {
                let longer = samples@.take(i + 1);
                assert(longer.drop_last() =~= samples@.take(i as int));
                assert(longer.last() == samples@[i as int]);
            }
            self.push(samples[i]);
            i += 1;
        }
        assert(samples@.take(samples@.len() as int) =~= samples@);
    }

    /// The buffer's content in storage order, slot 0 first; this is not the
    /// order of writing.  The slot under the cursor is the one written
    /// longest ago.
    pub fn snapshot(&self) -> (slots: &[u64])
        ensures
            slots@ == self@.slots,
            self@.wf(),
    {
        proof {
            use_type_invariant(self);
        }
        self.slots.as_slice()
    }

    /// The number of slots.
    pub fn capacity(&self) -> (capacity: usize)
        ensures
            capacity == self@.capacity(),
            self@.wf(),
    {
        proof {
            use_type_invariant(self);
        }
        self.slots.len()
    }

    /// The slot that the next write overwrites.
    pub fn cursor(&self) -> (cursor: usize)
        ensures
            cursor == self@.cursor,
            self@.wf(),
    {
        proof {
            use_type_invariant(self);
        }
        self.cursor
    }
}

/// Two writes fewer than a capacity apart go to different slots.
proof fn lemma_landings_differ(ring: Ring, earlier: int, later: int)
    requires
        ring.wf(),
        0 < later - earlier < ring.capacity(),
    ensures
        ring.landing(earlier) != ring.landing(later),
{
    let n = ring.capacity();
    lemma_mod_equivalence(ring.cursor + later, ring.cursor + earlier, n);
    lemma_small_mod((later - earlier) as nat, n as nat);
}

/// What a run of writes leaves.  The cursor has moved on by their number.
/// Each of the last `capacity` samples lies in the slot it was written to;
/// a slot that no write went to holds what it held.
pub proof fn lemma_push_all(ring: Ring, samples: Seq<u64>)
    requires
        ring.wf(),
    ensures
        ring.push_all(samples).wf(),
        ring.push_all(samples).capacity() == ring.capacity(),
        ring.push_all(samples).cursor == ring.landing(samples.len() as int),
        forall|k: int|
            0 <= k < samples.len() && samples.len() - k <= ring.capacity() ==> ring.push_all(
                samples,
            ).slots[#[trigger] ring.landing(k)] == samples[k],
        forall|slot: int|
            0 <= slot < ring.capacity() && (forall|k: int|
                0 <= k < samples.len() ==> #[trigger] ring.landing(k) != slot)
                ==> #[trigger] ring.push_all(samples).slots[slot] == ring.slots[slot],
    decreases samples.len(),
{
    let n = ring.capacity();
    if samples.len() == 0 {
        lemma_small_mod(ring.cursor as nat, n as nat);
    } else {
        let front = samples.drop_last();
        let before = ring.push_all(front);
        let after = ring.push_all(samples);
        lemma_push_all(ring, front);
        assert(after == before.push(samples.last()));
        assert(before.cursor == ring.landing(front.len() as int));
        assert(after.cursor == ring.landing(samples.len() as int)) by {
            lemma_add_mod_noop(ring.cursor + front.len(), 1, n);
            lemma_small_mod(before.cursor as nat, n as nat);
            if n == 1 {
                assert(1int % 1 == 0);
            } else {
                lemma_small_mod(1, n as nat);
            }
            lemma_mod_twice_of(ring.cursor + front.len(), n);
        }
        assert forall|k: int|
            0 <= k < samples.len() && samples.len() - k <= n implies after.slots[#[trigger] ring.landing(
            k,
        )] == samples[k] by {
            if k < front.len() {
                lemma_landings_differ(ring, k, front.len() as int);
                assert(front[k] == samples[k]);
            }
        }
        assert forall|slot: int|
            0 <= slot < n && (forall|k: int|
                0 <= k < samples.len() ==> #[trigger] ring.landing(k) != slot)
                implies #[trigger] after.slots[slot] == ring.slots[slot] by {
            assert(ring.landing(front.len() as int) != slot);
            assert(forall|k: int| 0 <= k < front.len() ==> #[trigger] ring.landing(k) != slot);
        }
    }
}

/// Writing one run after another is writing the two as one.
pub proof fn lemma_push_all_add(ring: Ring, first: Seq<u64>, second: Seq<u64>)
    ensures
        ring.push_all(first + second) == ring.push_all(first).push_all(second),
    decreases second.len(),
{
    if second.len() == 0 {
        assert(first + second =~= first);
    } else {
        lemma_push_all_add(ring, first, second.drop_last());
        assert((first + second).drop_last() =~= first + second.drop_last());
    }
}

/// Taking a remainder twice is taking it once.
proof fn lemma_mod_twice_of(x: int, n: int)
    requires
        0 < n,
    ensures
        (x % n) % n == x % n,
{
    lemma_small_mod((x % n) as nat, n as nat);
}

/// A full turn.  As many writes as the buffer has slots bring the cursor
/// back to where it was, and the buffer then holds exactly the written
/// samples in the order of writing, beginning at the cursor.  Where the
/// cursor was on slot 0, storage order is the order of writing.
pub proof fn lemma_full_turn(ring: Ring, samples: Seq<u64>)
    requires
        ring.wf(),
        samples.len() == ring.capacity(),
    ensures
        ring.push_all(samples).cursor == ring.cursor,
        ring.push_all(samples).slots.len() == samples.len(),
        forall|k: int|
            0 <= k < samples.len() ==> ring.push_all(samples).slots[#[trigger] ring.landing(k)]
                == samples[k],
        ring.cursor == 0 ==> ring.push_all(samples).slots == samples,
{
    let n = ring.capacity();
    lemma_push_all(ring, samples);
    lemma_mod_add_multiples_vanish(ring.cursor, n);
    lemma_small_mod(ring.cursor as nat, n as nat);
    if ring.cursor == 0 {
        assert forall|k: int| 0 <= k < n implies ring.push_all(samples).slots[k] == samples[k] by {
            lemma_small_mod(k as nat, n as nat);
            assert(ring.landing(k) == k);
        }
        assert(ring.push_all(samples).slots =~= samples);
    }
}

} // verus!
