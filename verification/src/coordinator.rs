//! The execution coordinator: the signal → risk → ledger → fill pipeline.
//!
//! The external strategy is an opaque collaborator. The surrounding driver
//! obtains at most one raw signal per tick from it (time-boxing the call
//! as it sees fit, treating a timeout or failure as "no signal") and hands
//! the decision to `process_tick`, which performs the risk check and the
//! ledger mutation for one symbol in a single exclusive call, so
//! check-then-apply can never interleave with another apply for the same
//! ledger.

use crate::fills::FILL_QUEUE_CAPACITY;
use crate::ledger::{
    apply_in_range, next_cost, next_position, realized_pnl, signed_delta, ExecutionEngine,
};
use crate::market::{Tick, TradeSignal};
use crate::risk::RiskEngine;
use vstd::prelude::*;

verus! {

/// What processing one tick did.
pub enum TickOutcome {
    /// No usable signal for this tick; nothing changed.
    NoSignal,
    /// The risk gate refused the proposal; nothing changed.
    Rejected,
    /// The trade was applied to the ledger and this fill emitted.
    Filled(crate::fills::Fill),
}

/// The coordinator owning the ledger and the risk gate.
pub struct HybridEngine {
    pub execution: ExecutionEngine,
    pub risk: RiskEngine,
}

impl HybridEngine {
    /// The coordinator is well formed when its ledger is.
    pub open spec fn wf(&self) -> bool {
        self.execution.wf()
    }

    /// Whether the risk gate lets `sig` through against the current
    /// exposure in `sym`: the net position the trade would leave behind
    /// — the current position plus the signed proposed quantity — stays
    /// within the limit, for sells just as for buys.
    pub open spec fn approves(&self, sym: Seq<char>, sig: TradeSignal) -> bool {
        -self.risk.spec_max_position() <= self.execution.spec_position(sym) + signed_delta(
            sig.side,
            sig.size as int,
        ) <= self.risk.spec_max_position()
    }

    /// The machine-range side condition for one tick: if the signal is
    /// well formed and would be approved, applying it must fit the
    /// fixed-width ledger representation.
    pub open spec fn tick_in_range(&self, tick: Tick, signal: Option<TradeSignal>) -> bool {
        match signal {
            Some(sig) => (sig.valid() && self.approves(tick.symbol@, sig)) ==> apply_in_range(
                self.execution.spec_position(tick.symbol@),
                self.execution.spec_cost(tick.symbol@),
                sig.side,
                sig.size as int,
                tick.price as int,
            ),
            None => true,
        }
    }

    /// A fresh coordinator: an empty ledger (no symbol tracked, so a
    /// snapshot of it is empty) and the default risk limits.
    pub fn new() -> (engine: HybridEngine)
        ensures
            engine.wf(),
            forall|s: Seq<char>| !(#[trigger] engine.execution.tracks(s)),
            forall|s: Seq<char>| #[trigger] engine.execution.spec_position(s) == 0,
            forall|s: Seq<char>| #[trigger] engine.execution.spec_cost(s) == 0,
            engine.execution.spec_fills().len() == 0,
            engine.execution.spec_fills_dropped() == 0,
            engine.risk.spec_max_position() == 1000,
    {
        HybridEngine { execution: ExecutionEngine::new(), risk: RiskEngine::new() }
    }

    /// Decides at run time whether this tick's decision fits the
    /// fixed-width ledger representation, so an unverified driver can
    /// establish `tick_in_range` before calling `process_tick`. In
    /// practice only absurd inputs fail this test; the default limits
    /// keep every reachable state far from the bounds.
    pub fn can_process(&self, tick: &Tick, signal: &Option<TradeSignal>) -> (ok: bool)
        requires
            self.wf(),
            tick.valid(),
        ensures
            ok == self.tick_in_range(*tick, *signal),
    {
        match signal {
            None => true,
            Some(sig) => {
                if sig.size <= 0 || sig.price < 0 {
                    return true;
                }
                let pos = self.execution.get_position(tick.symbol.as_str());
                let delta: i64 = match sig.side {
                    crate::market::Side::Buy => sig.size,
                    crate::market::Side::Sell => -sig.size,
                };
                if !self.risk.check_pre_trade(tick.symbol.as_str(), delta, pos) {
                    return true;
                }
                let cost = self.execution.get_cost_basis(tick.symbol.as_str());
                let np: i128 = pos as i128 + delta as i128;
                if np < i64::MIN as i128 || np > i64::MAX as i128 {
                    return false;
                }
                proof {
                    let z = sig.size as int;
                    let p = tick.price as int;
                    let q = pos as int;
                    assert(0 <= z * p <= (i64::MAX as int) * (i64::MAX as int))
                        by (nonlinear_arith)
                        requires
                            0 < z <= i64::MAX as int,
                            0 <= p <= i64::MAX as int,
                    ;
                    assert((i64::MAX as int) * (i64::MIN as int) <= p * q <= (i64::MAX as int) * (
                    i64::MAX as int)) by (nonlinear_arith)
                        requires
                            0 <= p <= i64::MAX as int,
                            i64::MIN as int <= q <= i64::MAX as int,
                    ;
                }
                let notional: i128 = (sig.size as i128) * (tick.price as i128);
                let total = match cost.checked_add(notional) {
                    Some(t) => t,
                    None => {
                        return false;
                    },
                };
                if total == i128::MIN {
                    return false;
                }
                let crossing = (pos > 0 && np < 0) || (pos < 0 && np > 0);
                if crossing {
                    let gross: i128 = (tick.price as i128) * (pos as i128);
                    if gross.checked_sub(cost).is_none() {
                        return false;
                    }
                }
                true
            },
        }
    }

    /// Processes one market tick given the strategy's raw decision for
    /// it.
    ///
    /// A missing or malformed signal (non-positive size or negative
    /// price) means no action. A well-formed signal's signed quantity is
    /// checked against the position limit using the tick symbol's
    /// current exposure; a rejected proposal is dropped softly and
    /// leaves every piece of state exactly as it was. An approved
    /// proposal is applied to the ledger at the tick's price and its
    /// fill is returned.
    ///
    /// The risk check and the ledger mutation both happen inside this
    /// one exclusive `&mut self` call, and the contract states both
    /// against the same starting state. A caller that serializes its
    /// calls on one ledger therefore cannot interleave another mutation
    /// between the two, and every approved fill leaves the net exposure
    /// within the limit.
    pub fn process_tick(&mut self, tick: &Tick, signal: Option<TradeSignal>) -> (outcome:
        TickOutcome)
        requires
            old(self).wf(),
            tick.valid(),
            old(self).tick_in_range(*tick, signal),
        ensures
            final(self).wf(),
            final(self).risk == old(self).risk,
            signal is None ==> (outcome is NoSignal && *final(self) == *old(self)),
            signal matches Some(sig) ==> (!sig.valid() ==> (outcome is NoSignal && *final(self)
                == *old(self))),
            signal matches Some(sig) ==> ((sig.valid() && !old(self).approves(tick.symbol@, sig))
                ==> (outcome is Rejected && *final(self) == *old(self))),
            signal matches Some(sig) ==> ((sig.valid() && old(self).approves(tick.symbol@, sig))
                ==> ({
                let pos0 = old(self).execution.spec_position(tick.symbol@);
                let cost0 = old(self).execution.spec_cost(tick.symbol@);
                &&& outcome is Filled
                &&& outcome->0.price == tick.price
                &&& outcome->0.size == sig.size
                &&& outcome->0.pnl as int == realized_pnl(
                    pos0,
                    cost0,
                    sig.side,
                    sig.size as int,
                    tick.price as int,
                )
                &&& outcome->0.order_id@.len() == 36
                &&& final(self).execution.spec_position(tick.symbol@) == next_position(
                    pos0,
                    sig.side,
                    sig.size as int,
                )
                &&& final(self).execution.spec_cost(tick.symbol@) == next_cost(
                    pos0,
                    cost0,
                    sig.side,
                    sig.size as int,
                    tick.price as int,
                )
                &&& forall|s: Seq<char>|
                    s != tick.symbol@ ==> #[trigger] final(self).execution.spec_position(s) == old(
                        self,
                    ).execution.spec_position(s)
                &&& forall|s: Seq<char>|
                    s != tick.symbol@ ==> #[trigger] final(self).execution.spec_cost(s) == old(
                        self,
                    ).execution.spec_cost(s)
                &&& (old(self).execution.spec_fills().len() < FILL_QUEUE_CAPACITY ==> (final(self)
                    .execution.spec_fills() == old(self).execution.spec_fills().push(outcome->0)
                    && final(self).execution.spec_fills_dropped() == old(
                    self,
                ).execution.spec_fills_dropped()))
                &&& (old(self).execution.spec_fills().len() >= FILL_QUEUE_CAPACITY ==> (final(self)
                    .execution.spec_fills() == old(self).execution.spec_fills() && final(self)
                    .execution.spec_fills_dropped() == (if old(self).execution.spec_fills_dropped()
                    == u64::MAX as int {
                    old(self).execution.spec_fills_dropped()
                } else {
                    old(self).execution.spec_fills_dropped() + 1
                })))
            })),
    {
        match signal {
            None => TickOutcome::NoSignal,
            Some(sig) => {
                if sig.size <= 0 || sig.price < 0 {
                    TickOutcome::NoSignal
                } else {
                    let current = self.execution.get_position(tick.symbol.as_str());
                    let delta: i64 = match sig.side {
                        crate::market::Side::Buy => sig.size,
                        crate::market::Side::Sell => -sig.size,
                    };
                    if self.risk.check_pre_trade(tick.symbol.as_str(), delta, current) {
                        let fill = self.execution.execute(
                            tick.symbol.as_str(),
                            sig.side,
                            sig.size,
                            tick.price,
                        );
                        TickOutcome::Filled(fill)
                    } else {
                        TickOutcome::Rejected
                    }
                }
            },
        }
    }
}

} // verus!
