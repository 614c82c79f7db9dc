//! The engine: what happens to one tick between the ring and the histogram.
//!
//! The caller reads the tick off the ring, starts a clock, hands the tick to `on_tick`, stops
//! the clock and hands the elapsed time to `record`. The engine stops when `on_tick` returns
//! a verdict other than `Safe`, or when `record` returns true, because the benchmark has its
//! samples.

use crate::float::Float64;
use crate::histogram::{HistogramView, LatencyHistogram, LatencyReport, BENCHMARK_SAMPLES};
use crate::orderbook::{BookView, GlobalOrderBook};
use crate::risk::{GlobalKillSwitch, RiskManager, RiskVerdict, RiskView};
use crate::strategy::{MakerState, MarketMaker, TradingStrategy};
use crate::tick::MarketTick;
use vstd::prelude::*;

verus! {

/// The engine as a mathematical value.
pub struct EngineView {
    pub book: BookView,
    pub maker: MakerState,
    pub risk: RiskView,
    pub histogram: HistogramView,
}

/// The order book, the market maker, the risk manager and the histogram of one consumer.
pub struct Engine {
    orderbook: GlobalOrderBook,
    strategy: MarketMaker,
    risk: RiskManager,
    histogram: LatencyHistogram,
}

impl View for Engine {
    type V = EngineView;

    closed spec fn view(&self) -> EngineView {
        EngineView {
            book: self.orderbook@,
            maker: self.strategy@,
            risk: self.risk@,
            histogram: self.histogram@,
        }
    }
}

impl EngineView {
    /// Whether the engine can take the tick: whether the counters of the book and of the market
    /// maker, and the position, still fit after it.
    pub open spec fn accepts(self, tick: MarketTick) -> bool {
        &&& self.book.crosses(tick) ==> self.book.trades_count < u64::MAX
        &&& i64::MIN <= self.maker.step(tick).position <= i64::MAX
        &&& self.maker.step(tick).trade_count <= u64::MAX
    }

    /// The verdict of the risk check that follows the tick, on the position after the tick and
    /// the profit and loss given.
    pub open spec fn verdict(self, tick: MarketTick, pnl: Float64) -> RiskVerdict {
        self.risk.verdict(self.maker.step(tick).position as i64, pnl)
    }

    /// The engine after the tick: the book has taken it, then the market maker, then the risk
    /// manager has checked the new position and the profit and loss given.
    pub open spec fn step(self, tick: MarketTick, pnl: Float64) -> EngineView {
        EngineView {
            book: self.book.step(tick),
            maker: self.maker.step(tick),
            risk: self.risk.after_check(self.maker.step(tick).position as i64, pnl),
            histogram: self.histogram,
        }
    }
}

impl Engine {
    /// The invariant of the engine: that of its histogram.
    pub closed spec fn wf(&self) -> bool {
        self.histogram.wf()
    }

    /// An engine with an empty book, a flat market maker, the default limits over the given
    /// switch, and a histogram without samples.
    pub fn new(kill_switch: GlobalKillSwitch) -> (engine: Engine)
        ensures
            engine.wf(),
            engine@.book == BookView::initial(),
            engine@.maker == MakerState::flat(),
            engine@.risk == RiskManager::new_view(kill_switch@),
            engine@.histogram.samples == 0,
            engine@.histogram.sum_ns == 0,
    {
        Engine {
            orderbook: GlobalOrderBook::new(),
            strategy: MarketMaker::new(),
            risk: RiskManager::new(kill_switch),
            histogram: LatencyHistogram::new(),
        }
    }

    /// Whether `on_tick` can take the tick.
    pub fn ready_for(&self, tick: &MarketTick) -> (r: bool)
        ensures
            r == self@.accepts(*tick),
    {
        (!self.orderbook.crosses(tick) || self.orderbook.trades_count() < u64::MAX)
            && self.strategy.fits(tick)
    }

    /// Runs one tick through the book, the market maker and the risk check, in that order.
    /// `pnl` is the market maker's profit and loss after the tick. Returns the verdict of the
    /// risk check; on any verdict but `Safe` the engine stops.
    pub fn on_tick(&mut self, tick: &MarketTick, pnl: Float64) -> (verdict: RiskVerdict)
        requires
            old(self).wf(),
            old(self)@.accepts(*tick),
        ensures
            final(self).wf(),
            final(self)@ == old(self)@.step(*tick, pnl),
            verdict == old(self)@.verdict(*tick, pnl),
    {
        let _trade = self.orderbook.execute_order(tick);
        let _signal = self.strategy.on_tick(tick);
        let verdict = self.risk.assess(self.strategy.position, pnl);
        let _safe = self.risk.check(self.strategy.position, pnl);
        verdict
    }

    /// Takes the time that `on_tick` took for the tick, in nanoseconds. The sample is recorded
    /// when the tick's timestamp is not zero and the benchmark is still short of samples.
    /// Returns whether the benchmark has all its samples; when it has, the engine stops.
    pub fn record(&mut self, tick: &MarketTick, nanos: u64) -> (complete: bool)
        requires
            old(self).wf(),
        ensures
            final(self).wf(),
            final(self)@ == (EngineView {
                histogram: old(self)@.histogram.observe(tick.timestamp, nanos),
                ..old(self)@
            }),
            complete == (final(self)@.histogram.samples == BENCHMARK_SAMPLES),
    {
        self.histogram.observe(tick.timestamp, nanos)
    }

    /// The figures of the benchmark so far.
    pub fn report(&self) -> (r: LatencyReport)
        requires
            self.wf(),
        ensures
            r.samples == self@.histogram.samples,
            r.sum_ns == self@.histogram.sum_ns,
            r.mean_ns == if self@.histogram.samples == 0 {
                None
            } else {
                Some((self@.histogram.sum_ns / self@.histogram.samples) as u64)
            },
            self@.histogram.is_percentile(r.p50 as int, 500),
            self@.histogram.is_percentile(r.p99 as int, 990),
            self@.histogram.is_percentile(r.p999 as int, 999),
            r.p50 <= r.p99 <= r.p999,
    {
        self.histogram.report()
    }

    /// The order book.
    pub fn orderbook(&self) -> (book: &GlobalOrderBook)
        ensures
            book@ == self@.book,
    {
        &self.orderbook
    }

    /// The market maker.
    pub fn strategy(&self) -> (maker: &MarketMaker)
        ensures
            maker@ == self@.maker,
    {
        &self.strategy
    }

    /// The risk manager.
    pub fn risk(&self) -> (risk: &RiskManager)
        ensures
            risk@ == self@.risk,
    {
        &self.risk
    }

    /// The histogram.
    pub fn histogram(&self) -> (histogram: &LatencyHistogram)
        ensures
            histogram@ == self@.histogram,
            self.wf() ==> histogram.wf(),
    {
        &self.histogram
    }
}

} // verus!
