use titan_core::buffer::RingBuffer;
use titan_core::float::Float64;
use titan_core::logging::{drain_burst, DRAIN_BURST};
use titan_core::network::{
    enqueue_packet, tick_at, ticks_in, ReadBatch, RecvOutcome, BATCH_READ_LOOPS, PACKET_SIZE,
    RECV_BUFFER_BYTES, TICKS_PER_PACKET,
};
use titan_core::tick::MarketTick;

fn feed_tick(id: u64) -> MarketTick {
    let side = if id % 2 == 0 { 1 } else { 2 };
    MarketTick::new("AAPL", Float64::from_bits(100.0f64.to_bits()), 10, side, id)
}

fn packet(first_id: u64) -> Vec<u8> {
    let mut bytes = Vec::new();
    for j in 0..TICKS_PER_PACKET as u64 {
        bytes.extend_from_slice(&feed_tick(first_id + j).to_bytes());
    }
    bytes
}

#[test]
fn a_packet_is_exactly_1280_bytes() {
    assert_eq!(PACKET_SIZE, 1280);
    assert_eq!(RECV_BUFFER_BYTES, 8_388_608);
    assert_eq!(packet(0).len(), PACKET_SIZE);
    assert_eq!(ticks_in(&packet(0)), 32);
    assert_eq!(ticks_in(&[]), 0);
    assert_eq!(ticks_in(&[0u8; 1279]), 0);
    assert_eq!(ticks_in(&[0u8; 1281]), 0);
    assert_eq!(ticks_in(&[0u8; 40]), 0);
    assert_eq!(ticks_in(&[0u8; 2560]), 0);
}

#[test]
fn tick_at_reads_the_records_in_wire_order() {
    let p = packet(64);
    for i in 0..TICKS_PER_PACKET {
        assert_eq!(tick_at(&p, i), feed_tick(64 + i as u64));
    }
}

#[test]
fn enqueue_packet_moves_all_ticks_in_order() {
    let mut ring = RingBuffer::new(64).unwrap();
    assert_eq!(enqueue_packet(&mut ring, &packet(0), 0), 32);
    assert_eq!(enqueue_packet(&mut ring, &packet(32), 0), 32);
    assert_eq!(ring.len(), 64);
    for id in 0..64 {
        assert_eq!(ring.read(), Some(feed_tick(id)));
    }
    assert_eq!(ring.read(), None);
}

#[test]
fn enqueue_packet_discards_a_datagram_of_another_size() {
    let mut ring = RingBuffer::new(64).unwrap();
    let mut short = packet(0);
    short.pop();
    assert_eq!(enqueue_packet(&mut ring, &short, 0), 0);
    let mut long = packet(0);
    long.push(0);
    assert_eq!(enqueue_packet(&mut ring, &long, 0), 0);
    assert_eq!(ring.len(), 0);
}

#[test]
fn enqueue_packet_stops_at_a_full_ring_and_resumes() {
    let mut ring = RingBuffer::new(8).unwrap();
    let p = packet(0);
    let mut seen = Vec::new();
    let mut next = enqueue_packet(&mut ring, &p, 0);
    assert_eq!(next, 8);
    assert_eq!(enqueue_packet(&mut ring, &p, next), 8);
    while next < ticks_in(&p) {
        for _ in 0..3 {
            seen.push(ring.read().unwrap());
        }
        let before = next;
        next = enqueue_packet(&mut ring, &p, next);
        assert_eq!(next, (before + 3).min(32));
        assert!(next == 32 || ring.len() == 8);
    }
    while let Some(t) = ring.read() {
        seen.push(t);
    }
    let expected: Vec<MarketTick> = (0..32).map(feed_tick).collect();
    assert_eq!(seen, expected);
}

#[test]
fn one_hundred_datagrams_arrive_byte_for_byte() {
    let mut ring = RingBuffer::new(4096).unwrap();
    let mut sent = Vec::new();
    for i in 0..100u64 {
        let p = packet(i * 32);
        assert_eq!(enqueue_packet(&mut ring, &p, 0), 32);
        sent.extend_from_slice(&p);
    }
    let mut observed = Vec::new();
    for _ in 0..3200 {
        observed.extend_from_slice(&ring.read().unwrap().to_bytes());
    }
    assert_eq!(ring.read(), None);
    assert_eq!(observed.len(), 128_000);
    assert_eq!(observed, sent);
}

#[test]
fn a_batch_ends_after_sixteen_reads() {
    let mut batch = ReadBatch::new();
    let mut reads = 0;
    while batch.wants_read() {
        assert!(batch.on_outcome(RecvOutcome::Datagram(PACKET_SIZE)));
        reads += 1;
    }
    assert_eq!(reads, BATCH_READ_LOOPS);
    assert_eq!(reads, 16);
    assert!(!batch.should_pause());
}

#[test]
fn a_batch_ends_at_would_block_and_pauses_if_nothing_came() {
    let mut batch = ReadBatch::new();
    assert!(batch.wants_read());
    assert!(!batch.on_outcome(RecvOutcome::WouldBlock));
    assert!(!batch.wants_read());
    assert!(batch.should_pause());

    let mut batch = ReadBatch::new();
    assert!(batch.on_outcome(RecvOutcome::Datagram(1280)));
    assert!(!batch.on_outcome(RecvOutcome::WouldBlock));
    assert!(!batch.wants_read());
    assert!(!batch.should_pause());
}

#[test]
fn a_batch_ends_at_any_other_failure() {
    let mut batch = ReadBatch::new();
    assert!(!batch.on_outcome(RecvOutcome::Failed));
    assert!(!batch.wants_read());
    assert!(batch.should_pause());
    assert_eq!(batch, ReadBatch { reads: 1, received_any: false, ended: true });
}

#[test]
fn a_batch_goes_on_after_a_datagram_of_another_size() {
    let mut batch = ReadBatch::new();
    assert!(!batch.on_outcome(RecvOutcome::Datagram(1279)));
    assert!(!batch.on_outcome(RecvOutcome::Datagram(0)));
    assert!(!batch.on_outcome(RecvOutcome::Datagram(1281)));
    assert!(batch.wants_read());
    assert!(batch.should_pause());
    assert!(batch.on_outcome(RecvOutcome::Datagram(1280)));
    assert!(!batch.should_pause());
    assert_eq!(batch, ReadBatch { reads: 4, received_any: true, ended: false });
}

#[test]
fn drain_burst_writes_raw_records_oldest_first() {
    let mut ring = RingBuffer::new(16).unwrap();
    for id in 0..5 {
        assert!(ring.write(feed_tick(id)));
    }
    let mut sink = vec![7u8];
    assert_eq!(drain_burst(&mut ring, &mut sink), 5);
    assert_eq!(ring.len(), 0);
    assert_eq!(sink.len(), 1 + 5 * 40);
    assert_eq!(sink[0], 7);
    for id in 0..5usize {
        assert_eq!(&sink[1 + id * 40..1 + (id + 1) * 40], &feed_tick(id as u64).to_bytes());
    }
    assert_eq!(drain_burst(&mut ring, &mut sink), 0);
    assert_eq!(sink.len(), 201);
}

#[test]
fn drain_burst_takes_at_most_4096_ticks() {
    let mut ring = RingBuffer::new(8192).unwrap();
    for id in 0..5000 {
        assert!(ring.write(feed_tick(id)));
    }
    let mut sink = Vec::new();
    assert_eq!(drain_burst(&mut ring, &mut sink), DRAIN_BURST);
    assert_eq!(DRAIN_BURST, 4096);
    assert_eq!(ring.len(), 904);
    assert_eq!(sink.len(), 4096 * 40);
    assert_eq!(&sink[4095 * 40..], &feed_tick(4095).to_bytes());
    assert_eq!(drain_burst(&mut ring, &mut sink), 904);
    assert_eq!(sink.len(), 5000 * 40);
    assert_eq!(&sink[4999 * 40..], &feed_tick(4999).to_bytes());
}
