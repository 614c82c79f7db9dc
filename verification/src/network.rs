//! The receiver's side of the wire: which datagrams are packets, the ticks of a packet, how
//! they enter the ring, and when a batch of receive calls ends.
//!
//! The socket belongs to the caller. It hands each datagram over as bytes and reports what each
//! receive call gave; the decisions are made here.

use crate::buffer::RingBuffer;
use crate::tick::{lemma_round_trip, lemma_wire_of_records, parse, wire_of, MarketTick};
use vstd::prelude::*;
use vstd::slice::slice_subrange;

verus! {

/// Ticks in one packet.
pub const TICKS_PER_PACKET: usize = 32;

/// Bytes in one packet: 32 records of 40 bytes.
pub const PACKET_SIZE: usize = 1280;

/// Receive calls in one batch, at most.
pub const BATCH_READ_LOOPS: usize = 16;

/// Bytes of receive buffer that the receiver asks the system for: 8 MiB.
pub const RECV_BUFFER_BYTES: usize = 8 * 1024 * 1024;

/// The ticks of a datagram, in wire order: 32 if it has exactly the size of a packet, none
/// otherwise.
pub open spec fn packet_ticks(datagram: Seq<u8>) -> Seq<MarketTick> {
    if datagram.len() == PACKET_SIZE {
        Seq::new(32, |i: int| parse(datagram.subrange(40 * i, 40 * i + 40))->0)
    } else {
        Seq::empty()
    }
}

/// A packet made of the records of 32 ticks holds exactly those ticks.
pub proof fn lemma_packet_round_trip(ticks: Seq<MarketTick>)
    requires
        ticks.len() == 32,
    ensures
        wire_of(ticks).len() == PACKET_SIZE,
        packet_ticks(wire_of(ticks)) == ticks,
{
    lemma_wire_of_records(ticks);
    assert forall|i: int| 0 <= i < 32 implies #[trigger] packet_ticks(wire_of(ticks))[i]
        == ticks[i] by {
        lemma_round_trip(ticks[i]);
    }
}

/// The number of ticks that a datagram holds: 32 for a packet, 0 for anything else, which is
/// discarded.
pub fn ticks_in(datagram: &[u8]) -> (n: usize)
    ensures
        n == packet_ticks(datagram@).len(),
        n == if datagram@.len() == PACKET_SIZE {
            TICKS_PER_PACKET
        } else {
            0
        },
{
    if datagram.len() == PACKET_SIZE {
        TICKS_PER_PACKET
    } else {
        0
    }
}

/// Tick `i` of a packet.
pub fn tick_at(packet: &[u8], i: usize) -> (tick: MarketTick)
    requires
        packet@.len() == PACKET_SIZE,
        i < TICKS_PER_PACKET,
    ensures
        tick == packet_ticks(packet@)[i as int],
{
    MarketTick::decode(slice_subrange(packet, 40 * i, 40 * i + 40))
}

/// Moves the ticks of a datagram into the ring, in wire order, from tick `from` on, and stops
/// when the ring is full. Returns the index of the first tick that is still to be moved; the
/// datagram is done when that is the number of its ticks. A caller that finds the ring full
/// waits for the reader and calls again with the index returned, so that no tick of a packet
/// is dropped.
pub fn enqueue_packet(ring: &mut RingBuffer, datagram: &[u8], from: usize) -> (next: usize)
    requires
        old(ring).wf(),
        from <= packet_ticks(datagram@).len(),
    ensures
        final(ring).wf(),
        final(ring).slots() == old(ring).slots(),
        from <= next <= packet_ticks(datagram@).len(),
        final(ring)@ == old(ring)@ + packet_ticks(datagram@).subrange(from as int, next as int),
        next < packet_ticks(datagram@).len() ==> final(ring)@.len() == final(ring).slots(),
{
    let count = ticks_in(datagram);
    let ghost ticks = packet_ticks(datagram@);
    let mut next = from;
    while next < count
        invariant
            ring.wf(),
            ring.slots() == old(ring).slots(),
            ticks == packet_ticks(datagram@),
            count == ticks.len(),
            count > 0 ==> datagram@.len() == PACKET_SIZE,
            from <= next <= count,
            ring@ == old(ring)@ + ticks.subrange(from as int, next as int),
        decreases count - next,
    {
        let tick = tick_at(datagram, next);
        if !ring.write(tick) {
            proof {
                ring.lemma_bounded();
            }
            return next;
        }
        proof {
            lemma_extend_run(old(ring)@, ticks, from as int, next as int);
        }
        next += 1;
    }
    next
}

/// Appending element `to` of `s` to a run of `s` that ends before it gives the run that ends
/// after it.
proof fn lemma_extend_run(head: Seq<MarketTick>, s: Seq<MarketTick>, from: int, to: int)
    requires
        0 <= from <= to < s.len(),
    ensures
        (head + s.subrange(from, to)).push(s[to]) == head + s.subrange(from, to + 1),
{
}

/// What one receive call on a socket that does not block gave.
#[derive(Clone, Copy, Debug, PartialEq, Eq, Structural)]
pub enum RecvOutcome {
    /// A datagram of this many bytes.
    Datagram(usize),
    /// Nothing is waiting.
    WouldBlock,
    /// Any other failure.
    Failed,
}

/// One batch of receive calls: up to 16 calls, ended early by the first call that gives no
/// datagram.
#[derive(Clone, Copy, Debug, PartialEq, Eq, Structural)]
pub struct ReadBatch {
    /// Receive calls made so far.
    pub reads: usize,
    /// Whether a packet has been received in this batch.
    pub received_any: bool,
    /// Whether a call gave no datagram.
    pub ended: bool,
}

impl ReadBatch {
    /// Whether the batch goes on with another receive call.
    pub open spec fn open(self) -> bool {
        !self.ended && self.reads < BATCH_READ_LOOPS
    }

    /// The batch after a receive call with the given outcome.
    pub open spec fn after(self, outcome: RecvOutcome) -> ReadBatch {
        ReadBatch {
            reads: (self.reads + 1) as usize,
            received_any: self.received_any || outcome == RecvOutcome::Datagram(PACKET_SIZE),
            ended: self.ended || !(outcome is Datagram),
        }
    }

    /// A batch before its first receive call.
    pub fn new() -> (batch: ReadBatch)
        ensures
            batch == (ReadBatch { reads: 0, received_any: false, ended: false }),
    {
        ReadBatch { reads: 0, received_any: false, ended: false }
    }

    /// Whether to make another receive call in this batch.
    pub fn wants_read(&self) -> (r: bool)
        ensures
            r == self.open(),
    {
        !self.ended && self.reads < BATCH_READ_LOOPS
    }

    /// Takes the outcome of a receive call. Returns whether it gave a packet, whose ticks are
    /// to be enqueued; a datagram of any other size is discarded and the batch goes on.
    pub fn on_outcome(&mut self, outcome: RecvOutcome) -> (accept: bool)
        requires
            old(self).open(),
        ensures
            accept == (outcome == RecvOutcome::Datagram(PACKET_SIZE)),
            *final(self) == old(self).after(outcome),
    {
        self.reads = self.reads + 1;
        match outcome {
            RecvOutcome::Datagram(size) => {
                if size == PACKET_SIZE {
                    self.received_any = true;
                    true
                } else {
                    false
                }
            },
            RecvOutcome::WouldBlock => {
                self.ended = true;
                false
            },
            RecvOutcome::Failed => {
                self.ended = true;
                false
            },
        }
    }

    /// Whether the receiver pauses after this batch: it does when the batch brought no packet.
    pub fn should_pause(&self) -> (r: bool)
        ensures
            r == !self.received_any,
    {
        !self.received_any
    }
}

} // verus!
