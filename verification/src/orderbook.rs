//! The order book: a cache of the best bid and the best ask over two stores of resting orders.
//!
//! An incoming tick is matched against the cached best price of the other side only. A tick that
//! matches never rests, and a resting order is never looked at again: the book is a workload for
//! measuring decision latency, not a full matcher.

use crate::float::Float64;
use crate::tick::{MarketTick, SIDE_BUY};
use rustc_hash::{FxBuildHasher, FxHashMap};
use vstd::prelude::*;

verus! {

/// The bits of 999 999.9, the best ask of a book on which no ask has rested.
pub const NO_ASK_BITS: u64 = 0x412e_847f_cccc_cccd;

/// A match of an incoming tick against the best price of the other side. The order id of the
/// side that was resting is not known and is reported as 0.
#[derive(Clone, Copy, Debug, PartialEq, Eq, Structural)]
pub struct Trade {
    pub price: Float64,
    pub quantity: u64,
    pub buyer_order_id: u64,
    pub seller_order_id: u64,
}

/// An order that rests in the book.
#[derive(Clone, Copy, Debug, PartialEq, Eq, Structural)]
pub struct Order {
    pub price: Float64,
    pub quantity: u64,
    pub order_id: u64,
}

/// `rustc_hash::FxBuildHasher`, the hasher builder of the book's maps. Nothing is said of it:
/// it only stands in the type of the maps.
#[verifier::external_type_specification]
#[verifier::external_body]
pub struct ExFxBuildHasher(FxBuildHasher);

/// The book as a mathematical value.
pub struct BookView {
    pub bids: Map<u64, Order>,
    pub asks: Map<u64, Order>,
    pub best_bid: Float64,
    pub best_ask: Float64,
    pub trades_count: u64,
}

/// The order that a tick becomes when it rests: its id is the tick's timestamp.
pub open spec fn order_of(tick: MarketTick) -> Order {
    Order { price: tick.price, quantity: tick.quantity, order_id: tick.timestamp }
}

impl BookView {
    /// The book before any tick: nothing rests, the best bid is 0.0 and the best ask 999 999.9.
    pub open spec fn initial() -> BookView {
        BookView {
            bids: Map::empty(),
            asks: Map::empty(),
            best_bid: Float64 { bits: 0 },
            best_ask: Float64 { bits: NO_ASK_BITS },
            trades_count: 0,
        }
    }

    /// Whether the tick is a bid: side 1 buys, every other side sells.
    pub open spec fn is_bid(tick: MarketTick) -> bool {
        tick.side == SIDE_BUY
    }

    /// Whether the tick matches: a bid at or above the best ask, an ask at or below the best bid.
    pub open spec fn crosses(self, tick: MarketTick) -> bool {
        if Self::is_bid(tick) {
            self.best_ask.less_eq(tick.price)
        } else {
            tick.price.less_eq(self.best_bid)
        }
    }

    /// The trade that the tick causes, if it matches: at the best price of the other side, for
    /// the tick's whole quantity.
    pub open spec fn trade(self, tick: MarketTick) -> Option<Trade> {
        if !self.crosses(tick) {
            None
        } else if Self::is_bid(tick) {
            Some(
                Trade {
                    price: self.best_ask,
                    quantity: tick.quantity,
                    buyer_order_id: tick.timestamp,
                    seller_order_id: 0,
                },
            )
        } else {
            Some(
                Trade {
                    price: self.best_bid,
                    quantity: tick.quantity,
                    buyer_order_id: 0,
                    seller_order_id: tick.timestamp,
                },
            )
        }
    }

    /// The book after the tick. A match is counted and changes nothing else. A tick that does not
    /// match rests under its order id, replacing an order of the same id on its side, and
    /// improves the best price of its side if it is strictly better.
    pub open spec fn step(self, tick: MarketTick) -> BookView {
        if self.crosses(tick) {
            BookView { trades_count: (self.trades_count + 1) as u64, ..self }
        } else if Self::is_bid(tick) {
            BookView {
                bids: self.bids.insert(tick.timestamp, order_of(tick)),
                best_bid: if self.best_bid.less(tick.price) {
                    tick.price
                } else {
                    self.best_bid
                },
                ..self
            }
        } else {
            BookView {
                asks: self.asks.insert(tick.timestamp, order_of(tick)),
                best_ask: if tick.price.less(self.best_ask) {
                    tick.price
                } else {
                    self.best_ask
                },
                ..self
            }
        }
    }

    /// The book after a sequence of ticks, taken in order.
    pub open spec fn run(self, ticks: Seq<MarketTick>) -> BookView
        decreases ticks.len(),
    {
        if ticks.len() == 0 {
            self
        } else {
            self.run(ticks.drop_last()).step(ticks.last())
        }
    }

    /// The book is not crossed: the best bid is strictly below the best ask.
    pub open spec fn uncrossed(self) -> bool {
        self.best_bid.less(self.best_ask)
    }
}

/// The book of the engine.
pub struct GlobalOrderBook {
    bids: FxHashMap<u64, Order>,
    asks: FxHashMap<u64, Order>,
    best_bid: Float64,
    best_ask: Float64,
    trades_count: u64,
}

/// `insert` of `rustc_hash::FxHashMap`, which is `HashMap::insert` of std with the hasher of
/// rustc_hash: afterwards the map holds the order under its own id, in place of whatever it
/// held under that id, and is otherwise unchanged. Believed, not proved.
#[verifier::external_body]
fn rest_order(side: &mut FxHashMap<u64, Order>, order: Order)
    ensures
        final(side)@ == old(side)@.insert(order.order_id, order),
{
    side.insert(order.order_id, order);
}

/// `len` of `rustc_hash::FxHashMap`, which is `HashMap::len` of std: the number of orders that
/// the map holds. Believed, not proved.
#[verifier::external_body]
fn resting_orders(side: &FxHashMap<u64, Order>) -> (n: usize)
    ensures
        n == side@.len(),
{
    side.len()
}

impl View for GlobalOrderBook {
    type V = BookView;

    closed spec fn view(&self) -> BookView {
        BookView {
            bids: self.bids@,
            asks: self.asks@,
            best_bid: self.best_bid,
            best_ask: self.best_ask,
            trades_count: self.trades_count,
        }
    }
}

impl GlobalOrderBook {
    /// An empty book.
    pub fn new() -> (book: GlobalOrderBook)
        ensures
            book@ == BookView::initial(),
    {
        GlobalOrderBook {
            bids: FxHashMap::default(),
            asks: FxHashMap::default(),
            best_bid: Float64 { bits: 0 },
            best_ask: Float64 { bits: NO_ASK_BITS },
            trades_count: 0,
        }
    }

    /// Whether the tick would match.
    pub fn crosses(&self, tick: &MarketTick) -> (r: bool)
        ensures
            r == self@.crosses(*tick),
    {
        if tick.side == SIDE_BUY {
            tick.price.ge(self.best_ask)
        } else {
            tick.price.le(self.best_bid)
        }
    }

    /// Takes one tick into the book and returns the trade, if the tick matched.
    pub fn execute_order(&mut self, tick: &MarketTick) -> (r: Option<Trade>)
        requires
            old(self)@.crosses(*tick) ==> old(self)@.trades_count < u64::MAX,
        ensures
            r == old(self)@.trade(*tick),
            final(self)@ == old(self)@.step(*tick),
    {
        let is_bid = tick.side == SIDE_BUY;
        let price = tick.price;
        let quantity = tick.quantity;
        let order_id = tick.timestamp;
        if is_bid {
            if price.ge(self.best_ask) {
                self.trades_count += 1;
                return Some(
                    Trade {
                        price: self.best_ask,
                        quantity,
                        buyer_order_id: order_id,
                        seller_order_id: 0,
                    },
                );
            } else {
                rest_order(&mut self.bids, Order { price, quantity, order_id });
                if price.gt(self.best_bid) {
                    self.best_bid = price;
                }
            }
        } else {
            if price.le(self.best_bid) {
                self.trades_count += 1;
                return Some(
                    Trade {
                        price: self.best_bid,
                        quantity,
                        buyer_order_id: 0,
                        seller_order_id: order_id,
                    },
                );
            } else {
                rest_order(&mut self.asks, Order { price, quantity, order_id });
                if price.lt(self.best_ask) {
                    self.best_ask = price;
                }
            }
        }
        None
    }

    /// The highest price at which a bid has rested, 0.0 before the first.
    pub fn best_bid(&self) -> (p: Float64)
        ensures
            p == self@.best_bid,
    {
        self.best_bid
    }

    /// The lowest price at which an ask has rested, 999 999.9 before the first.
    pub fn best_ask(&self) -> (p: Float64)
        ensures
            p == self@.best_ask,
    {
        self.best_ask
    }

    /// The number of ticks that matched.
    pub fn trades_count(&self) -> (n: u64)
        ensures
            n == self@.trades_count,
    {
        self.trades_count
    }

    /// The number of resting orders on both sides, or `usize::MAX` if the sum does not fit.
    pub fn depth(&self) -> (d: usize)
        ensures
            d == if self@.bids.len() + self@.asks.len() <= usize::MAX {
                self@.bids.len() + self@.asks.len()
            } else {
                usize::MAX as nat
            },
    {
        let bids = resting_orders(&self.bids);
        let asks = resting_orders(&self.asks);
        if bids <= usize::MAX - asks {
            bids + asks
        } else {
            usize::MAX
        }
    }
}

/// A tick leaves an uncrossed book uncrossed.
pub proof fn lemma_step_keeps_uncrossed(book: BookView, tick: MarketTick)
    requires
        book.uncrossed(),
    ensures
        book.step(tick).uncrossed(),
{
}

/// After any sequence of ticks on an empty book the best bid is strictly below the best ask.
pub proof fn lemma_book_stays_uncrossed(ticks: Seq<MarketTick>)
    ensures
        BookView::initial().run(ticks).uncrossed(),
    decreases ticks.len(),
{
    if ticks.len() > 0 {
        lemma_book_stays_uncrossed(ticks.drop_last());
        lemma_step_keeps_uncrossed(BookView::initial().run(ticks.drop_last()), ticks.last());
    }
}

} // verus!
