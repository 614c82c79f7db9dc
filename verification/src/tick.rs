//! The market tick: one fixed record of forty bytes.

use crate::float::Float64;
use vstd::prelude::*;
use vstd::string::StringSliceAdditionalSpecFns;

verus! {

/// The side byte of a buy tick.
pub const SIDE_BUY: u8 = 1;

/// The side byte of a sell tick.
pub const SIDE_SELL: u8 = 2;

/// Bytes in a tick on the wire and in a log.
pub const TICK_SIZE: usize = 40;

/// One market event. `timestamp` is nanoseconds since the epoch on a live feed and the order id
/// in a benchmark feed. Equality (`==`) compares every byte of the record.
#[derive(Clone, Copy, Debug, PartialEq, Eq)]
pub struct MarketTick {
    pub symbol: [u8; 8],
    pub price: Float64,
    pub quantity: u64,
    pub timestamp: u64,
    pub side: u8,
    pub padding: [u8; 7],
}

/// The symbol field for a name: the first eight bytes of the name, left-justified, the rest zero.
pub open spec fn symbol_of(name: Seq<u8>) -> Seq<u8> {
    Seq::new(
        8,
        |i: int|
            if i < name.len() {
                name[i]
            } else {
                0u8
            },
    )
}

/// The number whose eight little-endian bytes are `s`.
pub open spec fn le_u64(s: Seq<u8>) -> int
    recommends
        s.len() == 8,
{
    s[0] as int + 0x100 * (s[1] as int) + 0x1_0000 * (s[2] as int) + 0x100_0000 * (s[3] as int)
        + 0x1_0000_0000 * (s[4] as int) + 0x100_0000_0000 * (s[5] as int) + 0x1_0000_0000_0000 * (
    s[6] as int) + 0x100_0000_0000_0000 * (s[7] as int)
}

/// The eight little-endian bytes of `x`.
pub open spec fn le_bytes(x: u64) -> Seq<u8> {
    seq![
        (x % 0x100) as u8,
        (x / 0x100 % 0x100) as u8,
        (x / 0x1_0000 % 0x100) as u8,
        (x / 0x100_0000 % 0x100) as u8,
        (x / 0x1_0000_0000 % 0x100) as u8,
        (x / 0x100_0000_0000 % 0x100) as u8,
        (x / 0x1_0000_0000_0000 % 0x100) as u8,
        (x / 0x100_0000_0000_0000 % 0x100) as u8,
    ]
}

/// Reading the bytes written for a number gives the number back.
pub proof fn lemma_le_u64_of_le_bytes(x: u64)
    ensures
        le_bytes(x).len() == 8,
        le_u64(le_bytes(x)) == x,
{
    assert(x == (x % 0x100) + 0x100 * (x / 0x100 % 0x100) + 0x1_0000 * (x / 0x1_0000 % 0x100)
        + 0x100_0000 * (x / 0x100_0000 % 0x100) + 0x1_0000_0000 * (x / 0x1_0000_0000 % 0x100)
        + 0x100_0000_0000 * (x / 0x100_0000_0000 % 0x100) + 0x1_0000_0000_0000 * (x
        / 0x1_0000_0000_0000 % 0x100) + 0x100_0000_0000_0000 * (x / 0x100_0000_0000_0000 % 0x100))
        by (bit_vector);
}

/// Eight bytes hold a number that fits in 64 bits, and writing it gives the bytes back.
pub proof fn lemma_le_bytes_of_le_u64(s: Seq<u8>)
    requires
        s.len() == 8,
    ensures
        0 <= le_u64(s) <= u64::MAX,
        le_bytes(le_u64(s) as u64) =~= s,
{
    let b0 = s[0];
    let b1 = s[1];
    let b2 = s[2];
    let b3 = s[3];
    let b4 = s[4];
    let b5 = s[5];
    let b6 = s[6];
    let b7 = s[7];
    let x = le_u64(s) as u64;
    assert(x % 0x100 == b0 && x / 0x100 % 0x100 == b1 && x / 0x1_0000 % 0x100 == b2 && x
        / 0x100_0000 % 0x100 == b3 && x / 0x1_0000_0000 % 0x100 == b4 && x / 0x100_0000_0000
        % 0x100 == b5 && x / 0x1_0000_0000_0000 % 0x100 == b6 && x / 0x100_0000_0000_0000 % 0x100
        == b7) by (bit_vector)
        requires
            x == b0 + 0x100 * b1 + 0x1_0000 * b2 + 0x100_0000 * b3 + 0x1_0000_0000 * b4
                + 0x100_0000_0000 * b5 + 0x1_0000_0000_0000 * b6 + 0x100_0000_0000_0000 * b7,
    ;
}

impl MarketTick {
    /// A tick for `sym` with the given fields and zero padding.
    pub fn new(sym: &str, price: Float64, qty: u64, side: u8, timestamp: u64) -> (t: MarketTick)
        ensures
            t.symbol@ == symbol_of(sym.spec_bytes()),
            t.price == price,
            t.quantity == qty,
            t.timestamp == timestamp,
            t.side == side,
            t.padding@ == Seq::new(7, |i: int| 0u8),
    {
        let bytes = sym.as_bytes();
        let mut s = [0u8;8];
        let mut i: usize = 0;
        while i < 8 && i < bytes.len()
            invariant
                i <= 8,
                i <= bytes@.len(),
                bytes@ == sym.spec_bytes(),
                forall|j: int| 0 <= j < i ==> s@[j] == bytes@[j],
                forall|j: int| i <= j < 8 ==> s@[j] == 0u8,
            decreases 8 - i,
        {
            s[i] = bytes[i];
            i += 1;
        }
        let t = MarketTick {
            symbol: s,
            price,
            quantity: qty,
            timestamp,
            side,
            padding: [0u8;7],
        };
        assert(t.symbol@ =~= symbol_of(sym.spec_bytes()));
        t
    }

    /// The forty bytes of the tick on the wire: the symbol, then price, quantity and timestamp
    /// as little-endian 64-bit numbers, then the side, then the seven bytes of padding.
    pub open spec fn wire(self) -> Seq<u8> {
        self.symbol@ + le_bytes(self.price.bits) + le_bytes(self.quantity) + le_bytes(
            self.timestamp,
        ) + seq![self.side] + self.padding@
    }

    /// Serializes the tick.
    pub fn to_bytes(&self) -> (out: [u8; 40])
        ensures
            out@ == self.wire(),
    {
        let mut out = [0u8;40];
        let mut i: usize = 0;
        while i < 8
            invariant
                i <= 8,
                forall|j: int| 0 <= j < i ==> out@[j] == self.symbol@[j],
            decreases 8 - i,
        {
            out[i] = self.symbol[i];
            i += 1;
        }
        write_u64(&mut out, 8, self.price.bits);
        write_u64(&mut out, 16, self.quantity);
        write_u64(&mut out, 24, self.timestamp);
        out[32] = self.side;
        let mut k: usize = 0;
        while k < 7
            invariant
                k <= 7,
                forall|j: int| 0 <= j < 33 ==> out@[j] == self.wire()[j],
                forall|j: int| 0 <= j < k ==> out@[33 + j] == self.padding@[j],
            decreases 7 - k,
        {
            out[33 + k] = self.padding[k];
            k += 1;
        }
        out
    }

    /// Appends the forty bytes of the tick to `sink`.
    pub fn write_to(&self, sink: &mut Vec<u8>)
        ensures
            final(sink)@ == old(sink)@ + self.wire(),
    {
        let bytes = self.to_bytes();
        let mut i: usize = 0;
        while i < 40
            invariant
                i <= 40,
                bytes@ == self.wire(),
                sink@ == old(sink)@ + self.wire().subrange(0, i as int),
            decreases 40 - i,
        {
            sink.push(bytes[i]);
            i += 1;
        }
    }

    /// Reads a tick from its forty bytes. Any other number of bytes is no tick.
    pub fn from_bytes(bytes: &[u8]) -> (r: Option<MarketTick>)
        ensures
            r is Some <==> bytes@.len() == TICK_SIZE,
            r == parse(bytes@),
            r is Some ==> r->0.wire() == bytes@,
    {
        if bytes.len() != TICK_SIZE {
            return None;
        }
        Some(Self::decode(bytes))
    }

    /// Reads a tick from a record of forty bytes.
    pub fn decode(bytes: &[u8]) -> (t: MarketTick)
        requires
            bytes@.len() == TICK_SIZE,
        ensures
            Some(t) == parse(bytes@),
            t.wire() == bytes@,
    {
        let mut symbol = [0u8;8];
        let mut i: usize = 0;
        while i < 8
            invariant
                i <= 8,
                bytes@.len() == 40,
                forall|j: int| 0 <= j < i ==> symbol@[j] == bytes@[j],
            decreases 8 - i,
        {
            symbol[i] = bytes[i];
            i += 1;
        }
        let price = read_u64(bytes, 8);
        let quantity = read_u64(bytes, 16);
        let timestamp = read_u64(bytes, 24);
        let side = bytes[32];
        let mut padding = [0u8;7];
        let mut k: usize = 0;
        while k < 7
            invariant
                k <= 7,
                bytes@.len() == 40,
                forall|j: int| 0 <= j < k ==> padding@[j] == bytes@[33 + j],
            decreases 7 - k,
        {
            padding[k] = bytes[33 + k];
            k += 1;
        }
        let t = MarketTick {
            symbol,
            price: Float64 { bits: price },
            quantity,
            timestamp,
            side,
            padding,
        };
        proof {
            lemma_le_bytes_of_le_u64(bytes@.subrange(8, 16));
            lemma_le_bytes_of_le_u64(bytes@.subrange(16, 24));
            lemma_le_bytes_of_le_u64(bytes@.subrange(24, 32));
            assert(t.wire() =~= bytes@);
            lemma_wire_is_injective(parse(bytes@)->0, t);
        }
        t
    }

    /// The symbol read as one little-endian integer, for fast equality.
    pub fn symbol_u64(&self) -> (r: u64)
        ensures
            r == le_u64(self.symbol@),
    {
        read_u64(self.symbol.as_slice(), 0)
    }
}

/// The little-endian number in the eight bytes of `b` that start at `at`.
fn read_u64(b: &[u8], at: usize) -> (r: u64)
    requires
        at + 8 <= b@.len(),
    ensures
        r == le_u64(b@.subrange(at as int, at + 8)),
{
    let b0: u64 = b[at] as u64;
    let b1: u64 = b[at + 1] as u64;
    let b2: u64 = b[at + 2] as u64;
    let b3: u64 = b[at + 3] as u64;
    let b4: u64 = b[at + 4] as u64;
    let b5: u64 = b[at + 5] as u64;
    let b6: u64 = b[at + 6] as u64;
    let b7: u64 = b[at + 7] as u64;
    b0 + 0x100 * b1 + 0x1_0000 * b2 + 0x100_0000 * b3 + 0x1_0000_0000 * b4 + 0x100_0000_0000 * b5
        + 0x1_0000_0000_0000 * b6 + 0x100_0000_0000_0000 * b7
}

/// Writes the eight little-endian bytes of `x` into `out` from `at` on.
fn write_u64(out: &mut [u8; 40], at: usize, x: u64)
    requires
        at + 8 <= 40,
    ensures
        forall|j: int| 0 <= j < 40 && !(at <= j < at + 8) ==> final(out)@[j] == old(out)@[j],
        forall|j: int| 0 <= j < 8 ==> final(out)@[at + j] == le_bytes(x)[j],
{
    out[at] = (x % 0x100) as u8;
    out[at + 1] = (x / 0x100 % 0x100) as u8;
    out[at + 2] = (x / 0x1_0000 % 0x100) as u8;
    out[at + 3] = (x / 0x100_0000 % 0x100) as u8;
    out[at + 4] = (x / 0x1_0000_0000 % 0x100) as u8;
    out[at + 5] = (x / 0x100_0000_0000 % 0x100) as u8;
    out[at + 6] = (x / 0x1_0000_0000_0000 % 0x100) as u8;
    out[at + 7] = (x / 0x100_0000_0000_0000 % 0x100) as u8;
}

/// Two ticks with the same forty bytes are the same tick.
pub proof fn lemma_wire_is_injective(a: MarketTick, b: MarketTick)
    requires
        a.wire() == b.wire(),
    ensures
        a == b,
{
    let w = a.wire();
    assert(a.symbol@ =~= w.subrange(0, 8));
    assert(b.symbol@ =~= w.subrange(0, 8));
    assert(le_bytes(a.price.bits) =~= w.subrange(8, 16));
    assert(le_bytes(b.price.bits) =~= w.subrange(8, 16));
    assert(le_bytes(a.quantity) =~= w.subrange(16, 24));
    assert(le_bytes(b.quantity) =~= w.subrange(16, 24));
    assert(le_bytes(a.timestamp) =~= w.subrange(24, 32));
    assert(le_bytes(b.timestamp) =~= w.subrange(24, 32));
    assert(a.side == w[32]);
    assert(b.side == w[32]);
    assert(a.padding@ =~= w.subrange(33, 40));
    assert(b.padding@ =~= w.subrange(33, 40));
    lemma_le_u64_of_le_bytes(a.price.bits);
    lemma_le_u64_of_le_bytes(b.price.bits);
    lemma_le_u64_of_le_bytes(a.quantity);
    lemma_le_u64_of_le_bytes(b.quantity);
    lemma_le_u64_of_le_bytes(a.timestamp);
    lemma_le_u64_of_le_bytes(b.timestamp);
    assert(a.symbol == b.symbol);
    assert(a.padding == b.padding);
}

/// The tick that forty bytes hold; other lengths hold none.
pub open spec fn parse(bytes: Seq<u8>) -> Option<MarketTick> {
    if bytes.len() == 40 {
        Some(choose|t: MarketTick| t.wire() == bytes)
    } else {
        None
    }
}

/// A tick has forty bytes, and reading them back gives a tick equal to it in every bit.
pub proof fn lemma_round_trip(tick: MarketTick)
    ensures
        tick.wire().len() == 40,
        parse(tick.wire()) == Some(tick),
{
    lemma_wire_is_injective(parse(tick.wire())->0, tick);
}

/// The records of `ticks` one after the other: the bytes of a datagram and of a log.
pub open spec fn wire_of(ticks: Seq<MarketTick>) -> Seq<u8>
    decreases ticks.len(),
{
    if ticks.len() == 0 {
        Seq::empty()
    } else {
        wire_of(ticks.drop_last()) + ticks.last().wire()
    }
}

/// The records of `n` ticks take `40 * n` bytes, and record `i` starts at byte `40 * i`.
pub proof fn lemma_wire_of_records(ticks: Seq<MarketTick>)
    ensures
        wire_of(ticks).len() == 40 * ticks.len(),
        forall|i: int|
            0 <= i < ticks.len() ==> #[trigger] wire_of(ticks).subrange(40 * i, 40 * i + 40)
                == ticks[i].wire(),
    decreases ticks.len(),
{
    if ticks.len() > 0 {
        let front = ticks.drop_last();
        lemma_wire_of_records(front);
        assert forall|i: int| 0 <= i < ticks.len() implies #[trigger] wire_of(ticks).subrange(
            40 * i,
            40 * i + 40,
        ) == ticks[i].wire() by {
            if i < front.len() {
                assert(wire_of(ticks).subrange(40 * i, 40 * i + 40) =~= wire_of(front).subrange(
                    40 * i,
                    40 * i + 40,
                ));
            }
        }
    }
}

impl Default for MarketTick {
    /// The tick of forty zero bytes.
    fn default() -> (t: MarketTick)
        ensures
            t.symbol@ == Seq::new(8, |i: int| 0u8),
            t.price.bits == 0,
            t.quantity == 0,
            t.timestamp == 0,
            t.side == 0,
            t.padding@ == Seq::new(7, |i: int| 0u8),
    {
        MarketTick {
            symbol: [0u8;8],
            price: Float64 { bits: 0 },
            quantity: 0,
            timestamp: 0,
            side: 0,
            padding: [0u8;7],
        }
    }
}

} // verus!
