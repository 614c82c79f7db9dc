//! The log sink's side of the logging ring: ticks leave the ring in bursts and become the bytes
//! of an append-only log, one record of forty bytes after the other, with no framing.
//!
//! The file and the thread that drains belong to the caller.

use crate::buffer::RingBuffer;
use crate::tick::wire_of;
use vstd::prelude::*;

verus! {

/// Bytes of buffer in front of the log file.
pub const WRITE_BUFFER_SIZE: usize = 128 * 1024;

/// Slots of the logging ring.
pub const LOG_RING_CAPACITY: usize = 1024 * 1024;

/// Ticks drained in one burst, at most.
pub const DRAIN_BURST: usize = 4096;

/// Microseconds that the drain sleeps after a burst that drained nothing.
pub const IDLE_SLEEP_MICROS: u64 = 10;

/// The number of ticks that one burst takes from a ring that holds `pending`.
pub open spec fn burst_len(pending: nat) -> nat {
    if pending < DRAIN_BURST {
        pending
    } else {
        DRAIN_BURST as nat
    }
}

/// Drains one burst: takes up to 4096 ticks from the front of the ring and appends the record
/// of each to `sink`, oldest first. Returns the number of ticks taken; after a burst of none
/// the caller sleeps before it tries again.
pub fn drain_burst(ring: &mut RingBuffer, sink: &mut Vec<u8>) -> (drained: usize)
    requires
        old(ring).wf(),
    ensures
        final(ring).wf(),
        final(ring).slots() == old(ring).slots(),
        drained == burst_len(old(ring)@.len()),
        final(ring)@ == old(ring)@.skip(drained as int),
        final(sink)@ == old(sink)@ + wire_of(old(ring)@.take(drained as int)),
{
    let mut drained: usize = 0;
    while drained < DRAIN_BURST
        invariant
            ring.wf(),
            ring.slots() == old(ring).slots(),
            drained <= DRAIN_BURST,
            drained <= old(ring)@.len(),
            ring@ == old(ring)@.skip(drained as int),
            sink@ == old(sink)@ + wire_of(old(ring)@.take(drained as int)),
        decreases DRAIN_BURST - drained,
    {
        match ring.read() {
            None => {
                return drained;
            },
            Some(tick) => {
                tick.write_to(sink);
                proof {
                    let taken = old(ring)@.take(drained + 1);
                    assert(taken.drop_last() =~= old(ring)@.take(drained as int));
                    assert(old(ring)@.skip(drained as int).drop_first() =~= old(ring)@.skip(
                        drained + 1,
                    ));
                }
                drained += 1;
            },
        }
    }
    drained
}

} // verus!
