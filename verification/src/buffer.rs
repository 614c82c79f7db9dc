//! The bounded queue between one writer and one reader.
//!
//! Two sequence numbers that only grow, `head` for the reader and `tail` for the writer, index a
//! ring of slots whose count is a power of two: sequence number `s` lives in slot `s & mask`.
//! The numbers wrap at 64 bits and the arithmetic on them is wrapping throughout.
//!
//! The ring here runs each call whole: a write or a read is the steps of the protocol with no
//! step of the other side in between, so a caller that shares the ring between threads gives
//! each call exclusive access. What happens when the steps interleave is shown in `protocol`.

use crate::protocol::{
    lemma_single_bit_is_pow2, lemma_slot_in_range, lemma_slots_differ, single_bit, Cells,
};
use crate::tick::MarketTick;
use vstd::arithmetic::power2::is_pow2;
use vstd::prelude::*;
use vstd::wrapping::u64_specs::{wrapping_add, wrapping_sub};

verus! {

/// Why a ring could not be made.
#[derive(Clone, Copy, Debug, PartialEq, Eq, Structural)]
pub enum RingError {
    /// The capacity asked for is zero or not a power of two.
    InvalidCapacity,
}

/// The queue after an attempt to write `value`: the value goes to the back if there is room.
pub open spec fn after_write(queue: Seq<MarketTick>, capacity: nat, value: MarketTick) -> Seq<
    MarketTick,
> {
    if queue.len() < capacity {
        queue.push(value)
    } else {
        queue
    }
}

/// The queue after an attempt to read: the front leaves if there is one.
pub open spec fn after_read(queue: Seq<MarketTick>) -> Seq<MarketTick> {
    if queue.len() > 0 {
        queue.drop_first()
    } else {
        queue
    }
}

/// The ring of ticks.
pub struct RingBuffer {
    head: u64,
    tail: u64,
    buffer: Vec<MarketTick>,
    capacity: usize,
    mask: usize,
}

impl View for RingBuffer {
    type V = Seq<MarketTick>;

    /// The ticks in flight, oldest first: those with sequence numbers from `head` up to `tail`.
    closed spec fn view(&self) -> Seq<MarketTick> {
        self.cells().in_flight()
    }
}

impl RingBuffer {
    /// The sequence numbers and the slots of the ring.
    pub closed spec fn cells(&self) -> Cells {
        Cells { head: self.head, tail: self.tail, slots: self.buffer@ }
    }

    /// The number of slots.
    pub closed spec fn slots(&self) -> nat {
        self.capacity as nat
    }

    /// The invariant of the ring: a power-of-two count of slots, and never more ticks in flight
    /// than slots.
    pub closed spec fn wf(&self) -> bool {
        &&& single_bit(self.capacity as u64)
        &&& self.mask == self.capacity - 1
        &&& self.buffer@.len() == self.capacity
        &&& wrapping_sub(self.tail, self.head) <= self.capacity
    }

    /// A ring that is well formed has a power-of-two count of slots and holds no more ticks
    /// than that. Its view is what its cells hold in flight.
    pub proof fn lemma_bounded(&self)
        requires
            self.wf(),
        ensures
            is_pow2(self.slots() as int),
            self@.len() <= self.slots(),
            self@ == self.cells().in_flight(),
            self.cells().slots.len() == self.slots(),
    {
        lemma_single_bit_is_pow2(self.capacity as u64);
    }

    /// An empty ring of `capacity` slots. The capacity must be a power of two.
    pub fn new(capacity: usize) -> (r: Result<RingBuffer, RingError>)
        ensures
            r is Ok <==> is_pow2(capacity as int),
            r is Err ==> r == Err::<RingBuffer, RingError>(RingError::InvalidCapacity),
            r is Ok ==> r->Ok_0.wf() && r->Ok_0.slots() == capacity && r->Ok_0@ == Seq::<
                MarketTick,
            >::empty(),
    {
        let c: u64 = capacity as u64;
        proof {
            lemma_single_bit_is_pow2(c);
        }
        if c == 0 || c & (c - 1) != 0 {
            return Err(RingError::InvalidCapacity);
        }
        let mut buffer: Vec<MarketTick> = Vec::with_capacity(capacity);
        let mut i: usize = 0;
        while i < capacity
            invariant
                i <= capacity,
                buffer@.len() == i,
            decreases capacity - i,
        {
            buffer.push(MarketTick::default());
            i += 1;
        }
        let ring = RingBuffer { head: 0, tail: 0, buffer, capacity, mask: capacity - 1 };
        Ok(ring)
    }

    /// The number of slots.
    pub fn capacity(&self) -> (c: usize)
        ensures
            c == self.slots(),
    {
        self.capacity
    }

    /// The number of ticks in flight: `tail - head`, wrapping.
    pub fn len(&self) -> (n: u64)
        requires
            self.wf(),
        ensures
            n == self@.len(),
            n <= self.slots(),
    {
        self.tail.wrapping_sub(self.head)
    }

    /// Publishes `value` at the back if a slot is free. Returns whether it did.
    pub fn write(&mut self, value: MarketTick) -> (r: bool)
        requires
            old(self).wf(),
        ensures
            final(self).wf(),
            final(self).slots() == old(self).slots(),
            r == (old(self)@.len() < old(self).slots()),
            final(self)@ == after_write(old(self)@, old(self).slots(), value),
            final(self).cells() == old(self).cells().written(value),
    {
        let tail = self.tail;
        let head = self.head;
        if tail.wrapping_sub(head) >= self.capacity as u64 {
            return false;
        }
        let index = (tail & (self.mask as u64)) as usize;
        proof {
            lemma_slot_in_range(tail, self.capacity as u64);
        }
        self.buffer[index] = value;
        self.tail = tail.wrapping_add(1);
        proof {
            let len = wrapping_sub(tail, head);
            let cap = self.capacity as u64;
            assert forall|i: int| 0 <= i < len implies #[trigger] self@[i] == old(self)@[i] by {
                lemma_slots_differ(head, i as u64, len, cap);
                lemma_slot_in_range(wrapping_add(head, i as u64), cap);
            }
        }
        true
    }

    /// Takes the tick at the front, if there is one.
    pub fn read(&mut self) -> (r: Option<MarketTick>)
        requires
            old(self).wf(),
        ensures
            final(self).wf(),
            final(self).slots() == old(self).slots(),
            r == if old(self)@.len() > 0 {
                Some(old(self)@[0])
            } else {
                None
            },
            final(self)@ == after_read(old(self)@),
            final(self).cells() == old(self).cells().consumed(),
    {
        let head = self.head;
        let tail = self.tail;
        if head == tail {
            return None;
        }
        let index = (head & (self.mask as u64)) as usize;
        proof {
            lemma_slot_in_range(head, self.capacity as u64);
        }
        let value = self.buffer[index];
        self.head = head.wrapping_add(1);
        Some(value)
    }
}

/// One call on a ring.
pub enum RingOp {
    Write(MarketTick),
    Read,
}

/// What a run of calls has done: the ticks in flight, every tick that a write published, and
/// every tick that a read returned, each in the order of the calls.
pub struct Trace {
    pub queue: Seq<MarketTick>,
    pub accepted: Seq<MarketTick>,
    pub delivered: Seq<MarketTick>,
}

impl Trace {
    /// The trace before any call.
    pub open spec fn start() -> Trace {
        Trace { queue: Seq::empty(), accepted: Seq::empty(), delivered: Seq::empty() }
    }

    /// The trace after one more call on a ring of `capacity` slots.
    pub open spec fn step(self, capacity: nat, op: RingOp) -> Trace {
        match op {
            RingOp::Write(value) => Trace {
                queue: after_write(self.queue, capacity, value),
                accepted: if self.queue.len() < capacity {
                    self.accepted.push(value)
                } else {
                    self.accepted
                },
                delivered: self.delivered,
            },
            RingOp::Read => Trace {
                queue: after_read(self.queue),
                accepted: self.accepted,
                delivered: if self.queue.len() > 0 {
                    self.delivered.push(self.queue[0])
                } else {
                    self.delivered
                },
            },
        }
    }

    /// The trace after the calls `ops` on an empty ring of `capacity` slots.
    pub open spec fn replay(capacity: nat, ops: Seq<RingOp>) -> Trace
        decreases ops.len(),
    {
        if ops.len() == 0 {
            Trace::start()
        } else {
            Trace::replay(capacity, ops.drop_last()).step(capacity, ops.last())
        }
    }
}

/// However writes and reads interleave, the ticks published are the ticks returned followed by
/// the ticks in flight: each tick comes out once, in the order it went in, and none is lost. At
/// no point are more ticks in flight than the ring has slots.
pub proof fn lemma_first_in_first_out(capacity: nat, ops: Seq<RingOp>)
    ensures
        Trace::replay(capacity, ops).accepted == Trace::replay(capacity, ops).delivered
            + Trace::replay(capacity, ops).queue,
        Trace::replay(capacity, ops).queue.len() <= capacity,
    decreases ops.len(),
{
    if ops.len() > 0 {
        lemma_first_in_first_out(capacity, ops.drop_last());
    }
}

} // verus!
