use titan_core::buffer::{RingBuffer, RingError};
use titan_core::float::Float64;
use titan_core::tick::MarketTick;

fn tick(id: u64) -> MarketTick {
    MarketTick::new("AAPL", Float64::from_bits(100.0f64.to_bits()), id + 1, 1, id)
}

#[test]
fn capacity_must_be_a_power_of_two() {
    for bad in [0usize, 3, 5, 6, 7, 12, 100, 1023, 16_385, usize::MAX] {
        assert_eq!(RingBuffer::new(bad).err(), Some(RingError::InvalidCapacity), "{bad}");
    }
    for good in [1usize, 2, 4, 8, 1024, 16_384] {
        let ring = RingBuffer::new(good).unwrap();
        assert_eq!(ring.capacity(), good);
        assert_eq!(ring.len(), 0);
    }
}

#[test]
fn full_ring_refuses_the_fifth_write() {
    let mut ring = RingBuffer::new(4).unwrap();
    let wrote: Vec<bool> = (0..5).map(|i| ring.write(tick(i))).collect();
    assert_eq!(wrote, vec![true, true, true, true, false]);
    assert_eq!(ring.len(), 4);
    assert_eq!(ring.read(), Some(tick(0)));
    assert!(ring.write(tick(5)));
    assert!(!ring.write(tick(6)));
    let rest: Vec<MarketTick> = std::iter::from_fn(|| ring.read()).collect();
    assert_eq!(rest, vec![tick(1), tick(2), tick(3), tick(5)]);
}

#[test]
fn empty_ring_reads_nothing() {
    let mut ring = RingBuffer::new(8).unwrap();
    assert_eq!(ring.read(), None);
    assert!(ring.write(tick(1)));
    assert_eq!(ring.read(), Some(tick(1)));
    assert_eq!(ring.read(), None);
    assert_eq!(ring.len(), 0);
}

#[test]
fn ring_of_one_slot() {
    let mut ring = RingBuffer::new(1).unwrap();
    for i in 0..10 {
        assert!(ring.write(tick(i)));
        assert!(!ring.write(tick(100 + i)));
        assert_eq!(ring.len(), 1);
        assert_eq!(ring.read(), Some(tick(i)));
        assert_eq!(ring.read(), None);
    }
}

#[test]
fn burst_of_capacity_writes_then_capacity_reads() {
    let capacity = 64;
    let mut ring = RingBuffer::new(capacity).unwrap();
    for round in 0..5u64 {
        for i in 0..capacity as u64 {
            assert!(ring.write(tick(round * 1000 + i)));
        }
        assert!(!ring.write(tick(0)));
        assert_eq!(ring.len(), capacity as u64);
        for i in 0..capacity as u64 {
            assert_eq!(ring.read(), Some(tick(round * 1000 + i)));
        }
        assert_eq!(ring.read(), None);
    }
}

#[test]
fn interleaved_writes_and_reads_stay_in_order() {
    let mut ring = RingBuffer::new(8).unwrap();
    let mut next_in = 0u64;
    let mut next_out = 0u64;
    let mut state = 0x2545_f491_4f6c_dd1du64;
    for _ in 0..20_000 {
        state ^= state << 13;
        state ^= state >> 7;
        state ^= state << 17;
        if state % 3 != 0 {
            let had_room = ring.len() < 8;
            assert_eq!(ring.write(tick(next_in)), had_room);
            if had_room {
                next_in += 1;
            }
        } else {
            match ring.read() {
                Some(t) => {
                    assert_eq!(t, tick(next_out));
                    next_out += 1;
                }
                None => assert_eq!(next_in, next_out),
            }
        }
        assert_eq!(ring.len(), next_in - next_out);
        assert!(ring.len() <= 8);
    }
}
