use titan_core::float::Float64;
use titan_core::tick::{MarketTick, SIDE_BUY, SIDE_SELL, TICK_SIZE};

fn price(x: f64) -> Float64 {
    Float64::from_bits(x.to_bits())
}

fn sample() -> MarketTick {
    MarketTick::new("AAPL", price(100.0), 10, SIDE_BUY, 0x0102_0304_0506_0708)
}

#[test]
fn new_left_justifies_and_zero_pads_the_symbol() {
    let t = sample();
    assert_eq!(t.symbol, [b'A', b'A', b'P', b'L', 0, 0, 0, 0]);
    assert_eq!(t.price, price(100.0));
    assert_eq!(t.quantity, 10);
    assert_eq!(t.timestamp, 0x0102_0304_0506_0708);
    assert_eq!(t.side, 1);
    assert_eq!(t.padding, [0u8; 7]);
}

#[test]
fn new_cuts_a_long_symbol_to_eight_bytes() {
    let t = MarketTick::new("BERKSHIRE-A", price(1.0), 1, SIDE_SELL, 1);
    assert_eq!(&t.symbol, b"BERKSHIR");
    let e = MarketTick::new("", price(1.0), 1, SIDE_SELL, 1);
    assert_eq!(e.symbol, [0u8; 8]);
    let full = MarketTick::new("ABCDEFGH", price(1.0), 1, SIDE_SELL, 1);
    assert_eq!(&full.symbol, b"ABCDEFGH");
}

#[test]
fn symbol_u64_is_the_little_endian_reading() {
    let t = sample();
    assert_eq!(t.symbol_u64(), u64::from_le_bytes(t.symbol));
    assert_eq!(t.symbol_u64(), 0x4c50_4141);
    let full = MarketTick::new("ABCDEFGH", price(1.0), 1, SIDE_SELL, 1);
    assert_eq!(full.symbol_u64(), u64::from_le_bytes(*b"ABCDEFGH"));
    let high = MarketTick { symbol: [0xff; 8], ..sample() };
    assert_eq!(high.symbol_u64(), u64::MAX);
}

#[test]
fn decode_reads_a_record_of_forty_bytes() {
    let mut bytes = [0u8; 40];
    bytes[8..16].copy_from_slice(&[1, 2, 3, 4, 5, 6, 7, 8]);
    bytes[16] = 9;
    bytes[31] = 0x80;
    bytes[32] = 2;
    let t = MarketTick::decode(&bytes);
    assert_eq!(t.price.to_bits(), 0x0807_0605_0403_0201);
    assert_eq!(t.quantity, 9);
    assert_eq!(t.timestamp, 0x8000_0000_0000_0000);
    assert_eq!(t.side, 2);
    assert_eq!(Some(t), MarketTick::from_bytes(&bytes));
}

#[test]
fn to_bytes_follows_the_wire_layout() {
    let t = MarketTick { padding: [1, 2, 3, 4, 5, 6, 7], ..sample() };
    let b = t.to_bytes();
    assert_eq!(b.len(), TICK_SIZE);
    assert_eq!(&b[0..8], b"AAPL\0\0\0\0");
    assert_eq!(&b[8..16], &100.0f64.to_le_bytes());
    assert_eq!(&b[16..24], &10u64.to_le_bytes());
    assert_eq!(&b[24..32], &[8, 7, 6, 5, 4, 3, 2, 1]);
    assert_eq!(b[32], 1);
    assert_eq!(&b[33..40], &[1, 2, 3, 4, 5, 6, 7]);
}

#[test]
fn serialize_then_deserialize_is_the_identity() {
    let ticks = [
        sample(),
        MarketTick::default(),
        MarketTick::new("ZZZZZZZZZ", price(-0.0), u64::MAX, 255, u64::MAX),
        MarketTick::new("MSFT", price(f64::NAN), 0, SIDE_SELL, 7),
        MarketTick { padding: [0xff; 7], ..sample() },
    ];
    for t in ticks {
        assert_eq!(MarketTick::from_bytes(&t.to_bytes()), Some(t));
    }
}

#[test]
fn deserialize_then_serialize_is_the_identity() {
    let mut bytes = [0u8; 40];
    for (i, b) in bytes.iter_mut().enumerate() {
        *b = (i as u8).wrapping_mul(37).wrapping_add(11);
    }
    let t = MarketTick::from_bytes(&bytes).unwrap();
    assert_eq!(t.to_bytes(), bytes);
    assert_eq!(t.side, bytes[32]);
    assert_eq!(t.quantity, u64::from_le_bytes(bytes[16..24].try_into().unwrap()));
}

#[test]
fn from_bytes_rejects_other_lengths() {
    assert_eq!(MarketTick::from_bytes(&[]), None);
    assert_eq!(MarketTick::from_bytes(&[0u8; 39]), None);
    assert_eq!(MarketTick::from_bytes(&[0u8; 41]), None);
    assert_eq!(MarketTick::from_bytes(&[0u8; 1280]), None);
    assert_eq!(MarketTick::from_bytes(&[0u8; 40]), Some(MarketTick::default()));
}

#[test]
fn write_to_appends_the_record() {
    let mut sink = vec![0xaa, 0xbb];
    let t = sample();
    t.write_to(&mut sink);
    assert_eq!(sink.len(), 42);
    assert_eq!(&sink[..2], &[0xaa, 0xbb]);
    assert_eq!(&sink[2..], &t.to_bytes());
}

#[test]
fn default_is_forty_zero_bytes() {
    assert_eq!(MarketTick::default().to_bytes(), [0u8; 40]);
}
