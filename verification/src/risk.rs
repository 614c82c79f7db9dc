//! The risk limits and the kill switch.
//!
//! The switch is a flag that can be set and never cleared. The risk manager holds the switch
//! and two limits; a check that finds a limit broken sets the switch, and from then on every
//! check fails.

use crate::float::Float64;
use vstd::prelude::*;

verus! {

/// The largest position, long or short, that passes a check.
pub const MAX_POSITION: i64 = 5_000;

/// The bits of -20 000.0, the profit and loss below which a check fails.
pub const MAX_DRAWDOWN_BITS: u64 = 0xc0d3_8800_0000_0000;

/// The kill switch: once tripped, trading stops for good.
#[derive(Debug)]
pub struct GlobalKillSwitch {
    tripped: bool,
}

impl View for GlobalKillSwitch {
    type V = bool;

    /// Whether the switch has been tripped.
    closed spec fn view(&self) -> bool {
        self.tripped
    }
}

impl GlobalKillSwitch {
    /// A switch that has not been tripped.
    pub fn new() -> (switch: GlobalKillSwitch)
        ensures
            !switch@,
    {
        GlobalKillSwitch { tripped: false }
    }

    /// Whether the switch has been tripped.
    pub fn is_tripped(&self) -> (r: bool)
        ensures
            r == self@,
    {
        self.tripped
    }

    /// Trips the switch. Tripping a tripped switch changes nothing.
    pub fn trip(&mut self)
        ensures
            final(self)@,
    {
        self.tripped = true;
    }
}

/// One call on a kill switch.
pub enum SwitchOp {
    IsTripped,
    Trip,
}

/// The switch after a run of calls on a switch in state `start`.
pub open spec fn switch_after(start: bool, ops: Seq<SwitchOp>) -> bool
    decreases ops.len(),
{
    if ops.len() == 0 {
        start
    } else {
        match ops.last() {
            SwitchOp::IsTripped => switch_after(start, ops.drop_last()),
            SwitchOp::Trip => true,
        }
    }
}

/// Once a switch is tripped no run of calls clears it: `is_tripped` never goes back to false.
pub proof fn lemma_switch_is_monotone(ops: Seq<SwitchOp>)
    ensures
        switch_after(true, ops),
    decreases ops.len(),
{
    if ops.len() > 0 {
        lemma_switch_is_monotone(ops.drop_last());
    }
}

/// The outcome of weighing a position and a profit and loss against the limits.
#[derive(Clone, Copy, Debug, PartialEq, Eq, Structural)]
pub enum RiskVerdict {
    /// Within both limits, and the switch is not tripped.
    Safe,
    /// The switch was tripped before.
    Halted,
    /// The position is beyond the limit, long or short.
    PositionBreach,
    /// The profit and loss is below the drawdown limit.
    DrawdownBreach,
}

/// The risk manager of the engine.
pub struct RiskManager {
    max_position: i64,
    max_drawdown: Float64,
    kill_switch: GlobalKillSwitch,
}

/// The limits and the switch of a risk manager.
pub struct RiskView {
    pub max_position: i64,
    pub max_drawdown: Float64,
    pub tripped: bool,
}

impl RiskView {
    /// The verdict on a position and a profit and loss. The switch is looked at first, then the
    /// position, then the profit and loss.
    pub open spec fn verdict(self, position: i64, pnl: Float64) -> RiskVerdict {
        if self.tripped {
            RiskVerdict::Halted
        } else if position > self.max_position || -position > self.max_position {
            RiskVerdict::PositionBreach
        } else if pnl.less(self.max_drawdown) {
            RiskVerdict::DrawdownBreach
        } else {
            RiskVerdict::Safe
        }
    }

    /// The manager after a check: any verdict but `Safe` leaves the switch tripped.
    pub open spec fn after_check(self, position: i64, pnl: Float64) -> RiskView {
        RiskView {
            tripped: self.verdict(position, pnl) != RiskVerdict::Safe,
            ..self
        }
    }
}

impl View for RiskManager {
    type V = RiskView;

    closed spec fn view(&self) -> RiskView {
        RiskView {
            max_position: self.max_position,
            max_drawdown: self.max_drawdown,
            tripped: self.kill_switch@,
        }
    }
}

impl RiskManager {
    /// A new manager as a mathematical value: the limits are 5 000 units of position and
    /// -20 000.0 of profit and loss.
    pub open spec fn new_view(tripped: bool) -> RiskView {
        RiskView {
            max_position: MAX_POSITION,
            max_drawdown: Float64 { bits: MAX_DRAWDOWN_BITS },
            tripped,
        }
    }

    /// A manager with the default limits over the given switch.
    pub fn new(kill_switch: GlobalKillSwitch) -> (manager: RiskManager)
        ensures
            manager@ == Self::new_view(kill_switch@),
    {
        RiskManager {
            max_position: MAX_POSITION,
            max_drawdown: Float64 { bits: MAX_DRAWDOWN_BITS },
            kill_switch,
        }
    }

    /// Whether the switch of this manager has been tripped.
    pub fn is_tripped(&self) -> (r: bool)
        ensures
            r == self@.tripped,
    {
        self.kill_switch.is_tripped()
    }

    /// Weighs a position and a profit and loss against the limits, and changes nothing.
    pub fn assess(&self, current_position: i64, current_pnl: Float64) -> (verdict: RiskVerdict)
        ensures
            verdict == self@.verdict(current_position, current_pnl),
    {
        if self.kill_switch.is_tripped() {
            RiskVerdict::Halted
        } else if current_position > self.max_position || current_position < 0 && (
        current_position == i64::MIN || -current_position > self.max_position) {
            RiskVerdict::PositionBreach
        } else if current_pnl.lt(self.max_drawdown) {
            RiskVerdict::DrawdownBreach
        } else {
            RiskVerdict::Safe
        }
    }

    /// Returns whether the state is safe. A breach of a limit trips the switch.
    pub fn check(&mut self, current_position: i64, current_pnl: Float64) -> (safe: bool)
        ensures
            safe == (old(self)@.verdict(current_position, current_pnl) == RiskVerdict::Safe),
            final(self)@ == old(self)@.after_check(current_position, current_pnl),
    {
        match self.assess(current_position, current_pnl) {
            RiskVerdict::Safe => true,
            RiskVerdict::Halted => false,
            RiskVerdict::PositionBreach => {
                self.kill_switch.trip();
                false
            },
            RiskVerdict::DrawdownBreach => {
                self.kill_switch.trip();
                false
            },
        }
    }
}

/// A check never clears the switch, and a check on a tripped switch fails.
pub proof fn lemma_check_keeps_tripped(risk: RiskView, position: i64, pnl: Float64)
    requires
        risk.tripped,
    ensures
        risk.after_check(position, pnl).tripped,
        risk.verdict(position, pnl) == RiskVerdict::Halted,
{
}

} // verus!
