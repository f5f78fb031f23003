//! Fixed-capacity queue of samples between the decoder and the output stage.
//!
//! The storage is `ringbuf`'s heap ring. [`RingBuffer`] owns one and keeps the
//! bound on its fill level as a type invariant, so that every operation is
//! stated over a plain model: a sequence of samples and a capacity.

use vstd::prelude::*;

verus! {

/// Whether a ring can be made with `capacity` slots: there is at least one,
/// and the four bytes of each fit together into the largest allocation.
pub open spec fn valid_capacity(capacity: int) -> bool {
    0 < capacity && capacity * 4 <= isize::MAX
}

/// `ringbuf::HeapRb<u32>`, opaque to the verifier.
#[verifier::external_body]
pub struct HeapRing {
    inner: ringbuf::HeapRb<u32>,
}

/// The samples that a heap ring holds, oldest first.
pub uninterp spec fn ring_items(ring: HeapRing) -> Seq<u32>;

/// The number of slots that a heap ring was made with.
pub uninterp spec fn ring_slots(ring: HeapRing) -> nat;

/// `ringbuf::HeapRb::new`: an empty ring with exactly `capacity` slots.
/// The call panics on a capacity of zero and on one whose storage exceeds the
/// largest allocation; `requires` leaves both out.
#[verifier::external_body]
fn heap_ring_new(capacity: usize) -> (ring: HeapRing)
    requires
        valid_capacity(capacity as int),
    ensures
        ring_items(ring) == Seq::<u32>::empty(),
        ring_slots(ring) == capacity,
{
    HeapRing { inner: ringbuf::HeapRb::<u32>::new(capacity) }
}

/// `ringbuf::traits::Producer::try_push` on an unshared ring: with a free slot
/// the sample becomes the newest item; on a full ring nothing changes and the
/// sample comes back in `Err`. The call does not panic.
#[verifier::external_body]
fn heap_ring_try_push(ring: &mut HeapRing, sample: u32) -> (r: Result<(), u32>)
    ensures
        ring_slots(*final(ring)) == ring_slots(*old(ring)),
        ring_slots(*old(ring)) > ring_items(*old(ring)).len() ==> r is Ok
            && ring_items(*final(ring)) == ring_items(*old(ring)).push(sample),
        ring_slots(*old(ring)) <= ring_items(*old(ring)).len() ==> r is Err && r->Err_0 == sample
            && ring_items(*final(ring)) == ring_items(*old(ring)),
    no_unwind
{
    ringbuf::traits::Producer::try_push(&mut ring.inner, sample)
}

/// `ringbuf::traits::Consumer::try_pop` on an unshared ring: the oldest sample
/// leaves and is returned; on an empty ring nothing changes and the result is
/// `None`. The call does not panic.
#[verifier::external_body]
fn heap_ring_try_pop(ring: &mut HeapRing) -> (r: Option<u32>)
    ensures
        ring_slots(*final(ring)) == ring_slots(*old(ring)),
        ring_items(*old(ring)).len() > 0 ==> r == Some(ring_items(*old(ring)).first())
            && ring_items(*final(ring)) == ring_items(*old(ring)).drop_first(),
        ring_items(*old(ring)).len() == 0 ==> r.is_none()
            && ring_items(*final(ring)) == ring_items(*old(ring)),
    no_unwind
{
    ringbuf::traits::Consumer::try_pop(&mut ring.inner)
}

/// `ringbuf::traits::Observer::occupied_len` on an unshared ring: the number
/// of samples that it holds.
#[verifier::external_body]
fn heap_ring_occupied_len(ring: &HeapRing) -> (n: usize)
    ensures
        n == ring_items(*ring).len(),
{
    ringbuf::traits::Observer::occupied_len(&ring.inner)
}

/// What a ring buffer is to its callers: the unread samples, oldest first, and
/// the fixed number of slots.
pub struct RingModel {
    pub items: Seq<u32>,
    pub capacity: nat,
}

/// One operation on a ring buffer.
pub enum RingOp {
    Push(u32),
    Pop,
}

impl RingModel {
    /// The fill level never exceeds the capacity, and the capacity is not zero.
    pub open spec fn wf(self) -> bool {
        0 < self.capacity && self.items.len() <= self.capacity
    }

    pub open spec fn empty(capacity: nat) -> RingModel {
        RingModel { items: Seq::empty(), capacity }
    }

    pub open spec fn is_empty(self) -> bool {
        self.items.len() == 0
    }

    pub open spec fn is_full(self) -> bool {
        self.items.len() >= self.capacity
    }

    /// A push appends unless the ring is full; a full ring stays as it is.
    pub open spec fn push(self, sample: u32) -> RingModel {
        if self.is_full() {
            self
        } else {
            RingModel { items: self.items.push(sample), capacity: self.capacity }
        }
    }

    /// What a push reports: the sample itself comes back from a full ring.
    pub open spec fn push_result(self, sample: u32) -> Result<(), u32> {
        if self.is_full() {
            Err(sample)
        } else {
            Ok(())
        }
    }

    /// A pop removes the oldest sample; an empty ring stays as it is.
    pub open spec fn pop(self) -> RingModel {
        if self.is_empty() {
            self
        } else {
            RingModel { items: self.items.drop_first(), capacity: self.capacity }
        }
    }

    /// What a pop reports: the oldest sample, or `None` from an empty ring.
    pub open spec fn pop_result(self) -> Option<u32> {
        if self.is_empty() {
            None
        } else {
            Some(self.items.first())
        }
    }

    pub open spec fn apply(self, op: RingOp) -> RingModel {
        match op {
            RingOp::Push(sample) => self.push(sample),
            RingOp::Pop => self.pop(),
        }
    }

    /// The ring after a whole sequence of operations, first to last.
    pub open spec fn run(self, ops: Seq<RingOp>) -> RingModel
        decreases ops.len(),
    {
        if ops.len() == 0 {
            self
        } else {
            self.apply(ops.first()).run(ops.drop_first())
        }
    }
}

/// Whatever pushes and pops are made, in whatever order, the number of unread
/// samples never exceeds the capacity, which itself never changes.
pub proof fn lemma_run_bounded(ring: RingModel, ops: Seq<RingOp>)
    requires
        ring.wf(),
    ensures
        ring.run(ops).wf(),
        ring.run(ops).capacity == ring.capacity,
        ring.run(ops).items.len() <= ring.capacity,
    decreases ops.len(),
{
    if ops.len() > 0 {
        lemma_run_bounded(ring.apply(ops.first()), ops.drop_first());
    }
}

/// A push never overwrites unread data: what was in the ring before stays, in
/// order, at the front of what is in it after.
pub proof fn lemma_push_keeps_unread(ring: RingModel, sample: u32)
    ensures
        ring.items.is_prefix_of(ring.push(sample).items),
{
}

/// Bounded single-owner queue of samples, first in, first out.
pub struct RingBuffer {
    ring: HeapRing,
    slots: usize,
}

impl View for RingBuffer {
    type V = RingModel;

    closed spec fn view(&self) -> RingModel {
        RingModel { items: ring_items(self.ring), capacity: ring_slots(self.ring) }
    }
}

impl RingBuffer {
    #[verifier::type_invariant]
    spec fn inv(self) -> bool {
        &&& ring_slots(self.ring) == self.slots
        &&& 0 < self.slots
        &&& ring_items(self.ring).len() <= self.slots
    }

    /// Whether a ring can be made with `capacity` slots.
    pub fn capacity_is_valid(capacity: usize) -> (valid: bool)
        ensures
            valid == valid_capacity(capacity as int),
    {
        0 < capacity && capacity <= isize::MAX as usize / 4
    }

    /// An empty ring with `capacity` slots.
    pub fn new(capacity: usize) -> (ring: RingBuffer)
        requires
            valid_capacity(capacity as int),
        ensures
            ring@ == RingModel::empty(capacity as nat),
            ring@.wf(),
    {
        RingBuffer { ring: heap_ring_new(capacity), slots: capacity }
    }

    /// The fixed number of slots.
    pub fn capacity(&self) -> (n: usize)
        ensures
            n == self@.capacity,
            self@.wf(),
    {
        proof {
            use_type_invariant(self);
        }
        self.slots
    }

    /// The number of unread samples, never more than the capacity.
    pub fn len(&self) -> (n: usize)
        ensures
            n == self@.items.len(),
            n <= self@.capacity,
            self@.wf(),
    {
        proof {
            use_type_invariant(self);
        }
        heap_ring_occupied_len(&self.ring)
    }

    /// Whether no sample is waiting.
    pub fn is_empty(&self) -> (b: bool)
        ensures
            b == self@.is_empty(),
            self@.wf(),
    {
        self.len() == 0
    }

    /// Whether every slot is taken, so that a push would fail.
    pub fn is_full(&self) -> (b: bool)
        ensures
            b == self@.is_full(),
            self@.wf(),
    {
        self.len() >= self.capacity()
    }

    /// Appends `sample` unless the ring is full. A full ring is left untouched
    /// and hands the sample back.
    pub fn push(&mut self, sample: u32) -> (r: Result<(), u32>)
        ensures
            final(self)@ == old(self)@.push(sample),
            r == old(self)@.push_result(sample),
            final(self)@.wf(),
    {
        proof {
            use_type_invariant(&*self);
        }
        let r = heap_ring_try_push(&mut self.ring, sample);
        assert(r is Ok ==> r->Ok_0 == ());
        r
    }

    /// Removes and returns the oldest sample. An empty ring is left untouched
    /// and gives `None` at once.
    pub fn pop(&mut self) -> (r: Option<u32>)
        ensures
            final(self)@ == old(self)@.pop(),
            r == old(self)@.pop_result(),
            final(self)@.wf(),
    {
        proof {
            use_type_invariant(&*self);
        }
        heap_ring_try_pop(&mut self.ring)
    }
}

} // verus!
