//! Trading strategies: what a strategy can do, and the naive market maker.
//!
//! The market maker takes the other side of every tick that carries a quantity. Its position
//! and its count of trades are kept here. Its profit and loss is a sum of products of doubles,
//! which the caller keeps; the library says which cash flow each tick causes.

use crate::float::Float64;
use crate::tick::{MarketTick, SIDE_BUY};
use vstd::prelude::*;

verus! {

/// What the engine asks of a strategy.
pub trait TradingStrategy {
    /// The ticks that the strategy can take in its present state.
    spec fn accepts(&self, tick: &MarketTick) -> bool;

    /// The name of the strategy.
    fn name(&self) -> &str;

    /// Takes one tick. Returns whether the strategy traded on it.
    fn on_tick(&mut self, tick: &MarketTick) -> bool
        requires
            old(self).accepts(tick),
    ;
}

/// The money that a tick moves.
#[derive(Clone, Copy, Debug, PartialEq, Eq, Structural)]
pub enum CashFlow {
    /// The tick moves none.
    Nothing,
    /// `quantity` times `price` is added to the profit and loss.
    Credit { quantity: u64, price: Float64 },
    /// `quantity` times `price` is taken from the profit and loss.
    Debit { quantity: u64, price: Float64 },
}

/// The quantity of a tick with its sign by side: a buy counts up, anything else counts down.
pub open spec fn signed_quantity(tick: MarketTick) -> int {
    if tick.side == SIDE_BUY {
        tick.quantity as int
    } else {
        -(tick.quantity as int)
    }
}

/// The sum of the signed quantities of `ticks`.
pub open spec fn net_quantity(ticks: Seq<MarketTick>) -> int
    decreases ticks.len(),
{
    if ticks.len() == 0 {
        0
    } else {
        net_quantity(ticks.drop_last()) + signed_quantity(ticks.last())
    }
}

/// The number of `ticks` that carry a quantity.
pub open spec fn traded_ticks(ticks: Seq<MarketTick>) -> nat
    decreases ticks.len(),
{
    if ticks.len() == 0 {
        0
    } else if ticks.last().quantity > 0 {
        traded_ticks(ticks.drop_last()) + 1
    } else {
        traded_ticks(ticks.drop_last())
    }
}

/// The cash flow of a tick for the market maker: a buy tick is sold into and credits it, any
/// other tick debits it, and a tick without quantity moves nothing.
pub open spec fn cash_flow_of(tick: MarketTick) -> CashFlow {
    if tick.quantity == 0 {
        CashFlow::Nothing
    } else if tick.side == SIDE_BUY {
        CashFlow::Credit { quantity: tick.quantity, price: tick.price }
    } else {
        CashFlow::Debit { quantity: tick.quantity, price: tick.price }
    }
}

/// The books of a market maker as numbers without bounds.
pub struct MakerState {
    pub position: int,
    pub trade_count: int,
}

impl MakerState {
    /// Flat, with no trade made.
    pub open spec fn flat() -> MakerState {
        MakerState { position: 0, trade_count: 0 }
    }

    /// The books after one tick: a tick that carries a quantity moves the position against its
    /// side by that quantity and counts as a trade; a tick without quantity is ignored.
    pub open spec fn step(self, tick: MarketTick) -> MakerState {
        if tick.quantity > 0 {
            MakerState {
                position: self.position - signed_quantity(tick),
                trade_count: self.trade_count + 1,
            }
        } else {
            self
        }
    }

    /// The books after a run of ticks, taken in order.
    pub open spec fn run(self, ticks: Seq<MarketTick>) -> MakerState
        decreases ticks.len(),
    {
        if ticks.len() == 0 {
            self
        } else {
            self.run(ticks.drop_last()).step(ticks.last())
        }
    }
}

/// The naive market maker.
#[derive(Clone, Copy, Debug, PartialEq, Eq, Structural)]
pub struct MarketMaker {
    pub position: i64,
    pub trade_count: u64,
}

impl View for MarketMaker {
    type V = MakerState;

    open spec fn view(&self) -> MakerState {
        MakerState { position: self.position as int, trade_count: self.trade_count as int }
    }
}

impl MarketMaker {
    /// A market maker that is flat and has not traded.
    pub fn new() -> (maker: MarketMaker)
        ensures
            maker@ == MakerState::flat(),
    {
        MarketMaker { position: 0, trade_count: 0 }
    }

    /// Whether `on_tick` can take the tick: whether the position and the count that it leads to
    /// fit in their 64 bits.
    pub fn fits(&self, tick: &MarketTick) -> (r: bool)
        ensures
            r == self.accepts(tick),
    {
        if tick.quantity == 0 {
            return true;
        }
        let quantity: i128 = tick.quantity as i128;
        let position: i128 = self.position as i128;
        let next: i128 = if tick.side == SIDE_BUY {
            position - quantity
        } else {
            position + quantity
        };
        -0x8000_0000_0000_0000 <= next && next <= 0x7fff_ffff_ffff_ffff && self.trade_count
            < u64::MAX
    }

    /// The cash flow that a tick causes.
    pub fn cash_flow(tick: &MarketTick) -> (flow: CashFlow)
        ensures
            flow == cash_flow_of(*tick),
    {
        if tick.quantity == 0 {
            CashFlow::Nothing
        } else if tick.side == SIDE_BUY {
            CashFlow::Credit { quantity: tick.quantity, price: tick.price }
        } else {
            CashFlow::Debit { quantity: tick.quantity, price: tick.price }
        }
    }
}

impl TradingStrategy for MarketMaker {
    /// A tick is taken when the books that it leads to fit: the position in a signed and the
    /// count in an unsigned 64-bit number.
    open spec fn accepts(&self, tick: &MarketTick) -> bool {
        &&& i64::MIN <= self@.step(*tick).position <= i64::MAX
        &&& self@.step(*tick).trade_count <= u64::MAX
    }

    fn name(&self) -> (r: &str)
        ensures
            r@ == "NaiveMM_v1"@,
    {
        "NaiveMM_v1"
    }

    fn on_tick(&mut self, tick: &MarketTick) -> (traded: bool)
        ensures
            traded == (tick.quantity > 0),
            final(self)@ == old(self)@.step(*tick),
    {
        if tick.quantity > 0 {
            let quantity: i128 = tick.quantity as i128;
            let position: i128 = self.position as i128;
            if tick.side == SIDE_BUY {
                self.position = (position - quantity) as i64;
            } else {
                self.position = (position + quantity) as i64;
            }
            self.trade_count += 1;
            return true;
        }
        false
    }
}

/// After any run of ticks a market maker that started flat holds the net quantity of the run
/// with the opposite sign, and has counted the ticks that carry a quantity.
pub proof fn lemma_position_mirrors_flow(ticks: Seq<MarketTick>)
    ensures
        MakerState::flat().run(ticks).position == -net_quantity(ticks),
        MakerState::flat().run(ticks).trade_count == traded_ticks(ticks),
    decreases ticks.len(),
{
    if ticks.len() > 0 {
        lemma_position_mirrors_flow(ticks.drop_last());
    }
}

} // verus!
