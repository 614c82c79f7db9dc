//! The protocol of the ring between two threads, one step at a time.
//!
//! A write is four steps: load the tail, load the head and give up if the ring is full, store
//! the tick into its slot, publish the new tail. A read is four steps: load the head, load the
//! tail and give up if the ring is empty, copy the tick out of its slot, publish the new head.
//! One thread writes and another reads, and the steps of the two interleave in any order. The
//! model below takes one step of one thread at a time and shows that whatever the order, the
//! ticks come out as they went in.
//!
//! Each step is indivisible and every later step sees what it did. Between threads that is what
//! the release store of one's own sequence number and the acquire load of the other's provide:
//! a thread that sees a published number also sees the slot that was stored before it.

use crate::tick::MarketTick;
use vstd::arithmetic::power2::is_pow2;
use vstd::prelude::*;
use vstd::wrapping::u64_specs::{wrapping_add, wrapping_sub};

verus! {

/// Exactly one bit of `c` is set.
pub open spec fn single_bit(c: u64) -> bool {
    c != 0 && c & ((c - 1) as u64) == 0
}

/// The slot of sequence number `seq` in a ring with the given mask.
pub open spec fn slot_of(seq: u64, mask: u64) -> u64 {
    seq & mask
}

/// The numbers with exactly one bit set are the powers of two.
pub proof fn lemma_single_bit_is_pow2(c: u64)
    ensures
        single_bit(c) <==> is_pow2(c as int),
    decreases c,
{
    reveal_with_fuel(is_pow2, 2);
    if c <= 1 {
        assert(single_bit(1)) by (bit_vector);
        assert(!single_bit(0)) by (bit_vector);
    } else {
        lemma_single_bit_is_pow2(c / 2);
        assert(single_bit(c) <==> (c % 2 == 0 && single_bit(c / 2))) by (bit_vector)
            requires
                c >= 2,
        ;
    }
}

/// A slot is below the capacity.
pub proof fn lemma_slot_in_range(seq: u64, capacity: u64)
    by (bit_vector)
    requires
        single_bit(capacity),
    ensures
        slot_of(seq, (capacity - 1) as u64) < capacity,
{
}

/// Two sequence numbers less than the capacity apart live in different slots.
pub proof fn lemma_slots_differ(head: u64, i: u64, j: u64, capacity: u64)
    by (bit_vector)
    requires
        single_bit(capacity),
        i < j,
        j < capacity,
    ensures
        slot_of(wrapping_add(head, i), (capacity - 1) as u64) != slot_of(
            wrapping_add(head, j),
            (capacity - 1) as u64,
        ),
{
}

/// What the two threads share: the two sequence numbers and the slots.
pub struct Cells {
    pub head: u64,
    pub tail: u64,
    pub slots: Seq<MarketTick>,
}

impl Cells {
    /// The mask that takes a sequence number to its slot.
    pub open spec fn mask(self) -> u64 {
        (self.slots.len() - 1) as u64
    }

    /// The number of ticks published and not yet consumed: `tail - head`, wrapping.
    pub open spec fn occupancy(self) -> u64 {
        wrapping_sub(self.tail, self.head)
    }

    /// The cells after a whole write that no step of the reader interrupts: unchanged if the
    /// ring is full, else with the tick in the slot of the tail and the tail one further.
    pub open spec fn written(self, value: MarketTick) -> Cells {
        if self.occupancy() >= self.slots.len() {
            self
        } else {
            Cells {
                head: self.head,
                tail: wrapping_add(self.tail, 1),
                slots: self.slots.update(slot_of(self.tail, self.mask()) as int, value),
            }
        }
    }

    /// The cells after a whole read that no step of the writer interrupts: unchanged if the
    /// ring is empty, else with the head one further.
    pub open spec fn consumed(self) -> Cells {
        if self.head == self.tail {
            self
        } else {
            Cells { head: wrapping_add(self.head, 1), ..self }
        }
    }

    /// The ticks published and not yet consumed, oldest first.
    pub open spec fn in_flight(self) -> Seq<MarketTick> {
        Seq::new(
            self.occupancy() as nat,
            |i: int| self.slots[slot_of(wrapping_add(self.head, i as u64), self.mask()) as int],
        )
    }
}

/// Where the writing thread stands in a call of write.
pub enum Writer {
    /// Between calls.
    Idle,
    /// It has loaded the tail.
    Loaded { value: MarketTick, tail: u64 },
    /// It has loaded the head and found a free slot.
    Claimed { value: MarketTick, tail: u64 },
    /// It has stored the tick and has yet to publish the tail.
    Stored { value: MarketTick, tail: u64 },
}

/// Where the reading thread stands in a call of read.
pub enum Reader {
    /// Between calls.
    Idle,
    /// It has loaded the head.
    Loaded { head: u64 },
    /// It has loaded the tail and found a tick.
    Ready { head: u64 },
    /// It has copied the tick out and has yet to publish the head.
    Copied { head: u64, value: MarketTick },
}

/// One step of one thread. A step of an idle writer starts a write of the tick given; a later
/// step of the same call goes on with the tick that the call started with.
pub enum Step {
    Write(MarketTick),
    Read,
}

/// The ring and its two threads, with the record of what went in and what came out: a tick is
/// accepted when its write publishes the tail, and delivered when its read publishes the head.
pub struct System {
    pub cells: Cells,
    pub writer: Writer,
    pub reader: Reader,
    pub accepted: Seq<MarketTick>,
    pub delivered: Seq<MarketTick>,
}

impl System {
    /// An empty ring over the given slots, both threads idle.
    pub open spec fn start(slots: Seq<MarketTick>) -> System {
        System {
            cells: Cells { head: 0, tail: 0, slots },
            writer: Writer::Idle,
            reader: Reader::Idle,
            accepted: Seq::empty(),
            delivered: Seq::empty(),
        }
    }

    /// The system after the next step of the writer.
    pub open spec fn writer_step(self, fresh: MarketTick) -> System {
        match self.writer {
            Writer::Idle => System {
                writer: Writer::Loaded { value: fresh, tail: self.cells.tail },
                ..self
            },
            Writer::Loaded { value, tail } => if wrapping_sub(tail, self.cells.head)
                >= self.cells.slots.len() {
                System { writer: Writer::Idle, ..self }
            } else {
                System { writer: Writer::Claimed { value, tail }, ..self }
            },
            Writer::Claimed { value, tail } => System {
                cells: Cells {
                    slots: self.cells.slots.update(
                        slot_of(tail, self.cells.mask()) as int,
                        value,
                    ),
                    ..self.cells
                },
                writer: Writer::Stored { value, tail },
                ..self
            },
            Writer::Stored { value, tail } => System {
                cells: Cells { tail: wrapping_add(tail, 1), ..self.cells },
                writer: Writer::Idle,
                accepted: self.accepted.push(value),
                ..self
            },
        }
    }

    /// The system after the next step of the reader.
    pub open spec fn reader_step(self) -> System {
        match self.reader {
            Reader::Idle => System { reader: Reader::Loaded { head: self.cells.head }, ..self },
            Reader::Loaded { head } => if head == self.cells.tail {
                System { reader: Reader::Idle, ..self }
            } else {
                System { reader: Reader::Ready { head }, ..self }
            },
            Reader::Ready { head } => System {
                reader: Reader::Copied {
                    head,
                    value: self.cells.slots[slot_of(head, self.cells.mask()) as int],
                },
                ..self
            },
            Reader::Copied { head, value } => System {
                cells: Cells { head: wrapping_add(head, 1), ..self.cells },
                reader: Reader::Idle,
                delivered: self.delivered.push(value),
                ..self
            },
        }
    }

    /// The system after one step.
    pub open spec fn step(self, step: Step) -> System {
        match step {
            Step::Write(fresh) => self.writer_step(fresh),
            Step::Read => self.reader_step(),
        }
    }

    /// The system after the steps `steps`, taken in order.
    pub open spec fn run(self, steps: Seq<Step>) -> System
        decreases steps.len(),
    {
        if steps.len() == 0 {
            self
        } else {
            self.run(steps.drop_last()).step(steps.last())
        }
    }

    /// What holds before and after every step: the slots are a power of two in number, no more
    /// ticks are in flight than there are slots, the ticks accepted are the ticks delivered
    /// followed by the ticks in flight, and each thread knows its own sequence number, has room
    /// or a tick where it found one, and holds the tick that its slot holds.
    pub open spec fn inv(self) -> bool {
        &&& self.cells.slots.len() <= u64::MAX
        &&& single_bit(self.cells.slots.len() as u64)
        &&& self.cells.occupancy() <= self.cells.slots.len()
        &&& self.accepted == self.delivered + self.cells.in_flight()
        &&& match self.writer {
            Writer::Idle => true,
            Writer::Loaded { value, tail } => tail == self.cells.tail,
            Writer::Claimed { value, tail } => tail == self.cells.tail && self.cells.occupancy()
                < self.cells.slots.len(),
            Writer::Stored { value, tail } => tail == self.cells.tail && self.cells.occupancy()
                < self.cells.slots.len() && self.cells.slots[slot_of(
                tail,
                self.cells.mask(),
            ) as int] == value,
        }
        &&& match self.reader {
            Reader::Idle => true,
            Reader::Loaded { head } => head == self.cells.head,
            Reader::Ready { head } => head == self.cells.head && self.cells.occupancy() > 0,
            Reader::Copied { head, value } => head == self.cells.head && self.cells.occupancy()
                > 0 && self.cells.in_flight()[0] == value,
        }
    }
}

/// A step of the writer keeps the invariant.
proof fn lemma_writer_step_keeps_inv(s: System, fresh: MarketTick)
    requires
        s.inv(),
    ensures
        s.writer_step(fresh).inv(),
        s.writer_step(fresh).cells.slots.len() == s.cells.slots.len(),
{
    let t = s.writer_step(fresh);
    let capacity = s.cells.slots.len() as u64;
    let len = s.cells.occupancy();
    let head = s.cells.head;
    match s.writer {
        Writer::Idle => {},
        Writer::Loaded { value, tail } => {},
        Writer::Claimed { value, tail } => {
            lemma_slot_in_range(tail, capacity);
            assert forall|i: int| 0 <= i < len implies #[trigger] t.cells.in_flight()[i]
                == s.cells.in_flight()[i] by {
                lemma_slots_differ(head, i as u64, len, capacity);
                lemma_slot_in_range(wrapping_add(head, i as u64), capacity);
            }
            assert(t.cells.in_flight() =~= s.cells.in_flight());
        },
        Writer::Stored { value, tail } => {
            assert(t.accepted =~= t.delivered + t.cells.in_flight());
        },
    }
}

/// A step of the reader keeps the invariant.
proof fn lemma_reader_step_keeps_inv(s: System)
    requires
        s.inv(),
    ensures
        s.reader_step().inv(),
        s.reader_step().cells.slots.len() == s.cells.slots.len(),
{
    let t = s.reader_step();
    match s.reader {
        Reader::Idle => {},
        Reader::Loaded { head } => {},
        Reader::Ready { head } => {},
        Reader::Copied { head, value } => {
            assert(t.accepted =~= t.delivered + t.cells.in_flight());
        },
    }
}

/// Every run of steps from the start keeps the invariant and the number of slots.
proof fn lemma_run_keeps_inv(slots: Seq<MarketTick>, steps: Seq<Step>)
    requires
        slots.len() <= u64::MAX,
        single_bit(slots.len() as u64),
    ensures
        System::start(slots).run(steps).inv(),
        System::start(slots).run(steps).cells.slots.len() == slots.len(),
    decreases steps.len(),
{
    if steps.len() == 0 {
        let s = System::start(slots);
    } else {
        lemma_run_keeps_inv(slots, steps.drop_last());
        let before = System::start(slots).run(steps.drop_last());
        match steps.last() {
            Step::Write(fresh) => lemma_writer_step_keeps_inv(before, fresh),
            Step::Read => lemma_reader_step_keeps_inv(before),
        }
    }
}

/// However the steps of one writer and one reader interleave on a ring whose slots are a power
/// of two in number, the ticks accepted are the ticks delivered followed by the ticks in
/// flight: each tick comes out once, in the order it went in, and none is lost or made up. At
/// no point are more ticks in flight than the ring has slots.
pub proof fn lemma_interleavings_are_first_in_first_out(slots: Seq<MarketTick>, steps: Seq<Step>)
    requires
        slots.len() <= u64::MAX,
        is_pow2(slots.len() as int),
    ensures
        System::start(slots).run(steps).inv(),
        System::start(slots).run(steps).accepted == System::start(slots).run(steps).delivered
            + System::start(slots).run(steps).cells.in_flight(),
        System::start(slots).run(steps).cells.in_flight().len() <= slots.len(),
{
    lemma_single_bit_is_pow2(slots.len() as u64);
    lemma_run_keeps_inv(slots, steps);
}

/// A write that runs without a step of the reader in between is two steps on a full ring and
/// four steps otherwise, and leaves the cells as `written` says.
pub proof fn lemma_write_alone(s: System, value: MarketTick)
    requires
        s.writer is Idle,
    ensures
        ({
            let checked = s.writer_step(value).writer_step(value);
            let done = checked.writer_step(value).writer_step(value);
            if s.cells.occupancy() >= s.cells.slots.len() {
                checked.writer is Idle && checked.cells == s.cells.written(value)
                    && checked.accepted == s.accepted
            } else {
                done.writer is Idle && done.cells == s.cells.written(value) && done.accepted
                    == s.accepted.push(value)
            }
        }),
{
}

/// A read that runs without a step of the writer in between is two steps on an empty ring and
/// four steps otherwise, and leaves the cells as `consumed` says.
pub proof fn lemma_read_alone(s: System)
    requires
        s.reader is Idle,
    ensures
        ({
            let checked = s.reader_step().reader_step();
            let done = checked.reader_step().reader_step();
            if s.cells.head == s.cells.tail {
                checked.reader is Idle && checked.cells == s.cells.consumed()
                    && checked.delivered == s.delivered
            } else {
                done.reader is Idle && done.cells == s.cells.consumed() && done.delivered
                    == s.delivered.push(
                    s.cells.slots[slot_of(s.cells.head, s.cells.mask()) as int],
                )
            }
        }),
{
}

} // verus!
