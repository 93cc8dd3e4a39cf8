//! The regular tick: what is lost is cleared away, and one side is quoted.
use crate::maker::cids;
use crate::maker::cids::{CidMap, InFlight, Side};
use crate::maker::fills;
use crate::maker::pause;
use crate::maker::state;
use crate::maker::state::{State, STUCK_ORDER_TIMEOUT_MS};
use crate::sbe::messages::ExecutionReportView;
use vstd::prelude::*;

verus! {

/// Milliseconds between two lines that say that there is no quote.
pub const NOQUOTE_LOG_INTERVAL_MS: u64 = 60_000;

/// What a tick starts with.
#[derive(Debug, Clone)]
pub enum TickStart {
    /// Placement is halted.
    Halted,
    /// The tick goes on once these are cancelled.
    Run {
        /// A halt is over.
        resumed: bool,
        /// The lost order to buy.
        stuck_buy: Option<i64>,
        /// The actions that were never answered.
        evicted: Vec<(Vec<u8>, InFlight)>,
        /// The lost order to sell.
        stuck_sell: Option<i64>,
    },
}

/// The order of a side whose last action and whose last report are both too long
/// ago.
pub open spec fn stuck(s: State, side: Side, now_ms: u64) -> Option<i64> {
    if s.id(side) != 0 && s.last_action_ms(side) != 0 && now_ms - s.last_action_ms(side)
        > STUCK_ORDER_TIMEOUT_MS && now_ms - s.last_report_ms(side) > STUCK_ORDER_TIMEOUT_MS {
        Some(s.id(side))
    } else {
        None
    }
}

/// The state without the lost order of a side.
pub open spec fn unstuck(s: State, side: Side, now_ms: u64) -> State {
    if stuck(s, side, now_ms) is Some {
        s.emptied(side).cancel_sent(side, now_ms)
    } else {
        s
    }
}

/// The state with a cancel sent on the sides of unanswered actions.
pub open spec fn cancelled_busy(s: State, m: Map<Seq<u8>, InFlight>, now_ms: u64) -> State {
    let s1 = if pause::busy(m, Side::Buy) {
        s.cancel_sent(Side::Buy, now_ms)
    } else {
        s
    };
    if pause::busy(m, Side::Sell) {
        s1.cancel_sent(Side::Sell, now_ms)
    } else {
        s1
    }
}

/// Placement is halted, and the halt is not over.
pub open spec fn still_halted(s: State, now_ms: u64) -> bool {
    s.halted && now_ms < s.rate_limit_until_ms
}

/// The state after the start of a tick that goes on.
pub open spec fn tick_started(s: State, m: Map<Seq<u8>, InFlight>, now_ms: u64) -> State {
    let stale = cids::stale_entries(m, now_ms, STUCK_ORDER_TIMEOUT_MS);
    let s1 = State { halted: false, ..s };
    cancelled_busy(
        unstuck(unstuck(s1, Side::Buy, now_ms), Side::Sell, now_ms),
        stale,
        now_ms,
    )
}

/// The side that a tick quotes.
#[derive(Debug, Clone, Copy, PartialEq, Eq, Structural)]
pub struct TickSide {
    pub side: Side,
    /// The order that rests on the other side and is to be cancelled.
    pub cancel_stale: Option<i64>,
}

impl State {
    /// Takes the lost order of a side out.
    fn clear_stuck(&mut self, side: Side, now_ms: u64) -> (id: Option<i64>)
        requires
            state::clock_ok(now_ms),
        ensures
            id == stuck(*old(self), side, now_ms),
            *final(self) == unstuck(*old(self), side, now_ms),
    {
        let id: i64 = self.order_id(side);
        let (last_action, last_report) = match side {
            Side::Buy => (self.last_buy_action_ms, self.last_buy_report_ms),
            Side::Sell => (self.last_sell_action_ms, self.last_sell_report_ms),
        };
        if id == 0 || last_action == 0 {
            return None;
        }
        if now_ms.saturating_sub(last_action) <= STUCK_ORDER_TIMEOUT_MS {
            return None;
        }
        if now_ms.saturating_sub(last_report) <= STUCK_ORDER_TIMEOUT_MS {
            return None;
        }
        self.clear_slot(side);
        self.note_cancel(side, now_ms);
        Some(id)
    }

    /// Starts a tick: ends a halt that is over, and takes out orders and actions
    /// that the exchange never answered.
    pub fn tick_start(&mut self, inflight: &mut CidMap<InFlight>, now_ms: u64) -> (start: TickStart)
        requires
            state::clock_ok(now_ms),
        ensures
            match start {
                TickStart::Halted => {
                    &&& still_halted(*old(self), now_ms)
                    &&& *final(self) == *old(self)
                    &&& final(inflight)@ == old(inflight)@
                },
                TickStart::Run { resumed, stuck_buy, evicted, stuck_sell } => {
                    let stale = cids::stale_entries(
                        old(inflight)@,
                        now_ms,
                        STUCK_ORDER_TIMEOUT_MS,
                    );
                    &&& !still_halted(*old(self), now_ms)
                    &&& resumed == old(self).halted
                    &&& stuck_buy == stuck(*old(self), Side::Buy, now_ms)
                    &&& stuck_sell == stuck(*old(self), Side::Sell, now_ms)
                    &&& cids::is_list_of(evicted@, stale)
                    &&& final(inflight)@ == old(inflight)@.remove_keys(stale.dom())
                    &&& *final(self) == tick_started(*old(self), old(inflight)@, now_ms)
                },
            },
    {
        let resumed = self.halted;
        if self.halted {
            if now_ms < self.rate_limit_until_ms {
                return TickStart::Halted;
            }
            self.halted = false;
        }
        let stuck_buy = self.clear_stuck(Side::Buy, now_ms);
        let stuck_sell = self.clear_stuck(Side::Sell, now_ms);
        let ghost m = cids::stale_entries(inflight@, now_ms, STUCK_ORDER_TIMEOUT_MS);
        let evicted = inflight.inflight_evict_stale(now_ms, STUCK_ORDER_TIMEOUT_MS);
        let mut buys = false;
        let mut sells = false;
        let mut i: usize = 0;
        while i < evicted.len()
            invariant
                i <= evicted@.len(),
                cids::is_list_of(evicted@, m),
                buys == (exists|k: int| 0 <= k < i && (#[trigger] evicted@[k]).1.side == Side::Buy),
                sells == (exists|k: int|
                    0 <= k < i && (#[trigger] evicted@[k]).1.side == Side::Sell),
            decreases evicted@.len() - i,
        {
            match evicted[i].1.side {
                Side::Buy => buys = true,
                Side::Sell => sells = true,
            }
            i = i + 1;
        }
        proof {
            cids::lemma_some_value(evicted@, m, |e: InFlight| e.side == Side::Buy);
            cids::lemma_some_value(evicted@, m, |e: InFlight| e.side == Side::Sell);
        }
        if buys {
            self.note_cancel(Side::Buy, now_ms);
        }
        if sells {
            self.note_cancel(Side::Sell, now_ms);
        }
        TickStart::Run { resumed, stuck_buy, evicted, stuck_sell }
    }

    /// The order that rests on the side that is not quoted.
    pub open spec fn stale_order(self) -> Option<i64> {
        let id = self.id(self.active_side.other_spec());
        if id != 0 {
            Some(id)
        } else {
            None
        }
    }

    /// This state once that order was asked to be cancelled, which every tick does
    /// until the exchange answers.
    pub open spec fn tick_sided(self, now_ms: u64) -> State {
        if self.stale_order() is Some {
            self.cancel_resent(self.active_side.other_spec(), now_ms)
        } else {
            self
        }
    }

    /// Picks the side that is quoted. An order that still rests on the other side
    /// is to be cancelled, and that side cools down.
    pub fn tick_side(&mut self, now_ms: u64) -> (t: TickSide)
        requires
            state::clock_ok(now_ms),
        ensures
            t.side == old(self).active_side,
            t.cancel_stale == old(self).stale_order(),
            *final(self) == old(self).tick_sided(now_ms),
    {
        let side = self.active_side;
        let id: i64 = self.order_id(side.other());
        if id == 0 {
            return TickSide { side, cancel_stale: None };
        }
        self.note_resent_cancel(side.other(), now_ms);
        TickSide { side, cancel_stale: Some(id) }
    }
}

/// It is time for a line that says that there is no quote.
pub open spec fn noquote_due(last_ms: u64, now_ms: u64) -> bool {
    now_ms - last_ms > NOQUOTE_LOG_INTERVAL_MS
}

/// Whether it is time for a line that says that there is no quote, `last_ms`
/// being the time of the last one.
pub fn noquote_log_due(last_ms: &mut u64, now_ms: u64) -> (due: bool)
    ensures
        due == noquote_due(*old(last_ms), now_ms),
        *final(last_ms) == if due {
            now_ms
        } else {
            *old(last_ms)
        },
{
    if now_ms.saturating_sub(*last_ms) > NOQUOTE_LOG_INTERVAL_MS {
        *last_ms = now_ms;
        true
    } else {
        false
    }
}

/// The start of a tick leaves nothing lost behind: no order of either side, and
/// no unanswered action, is older than the timeout.
pub proof fn law_tick_leaves_nothing_stuck(
    s: State,
    m: Map<Seq<u8>, InFlight>,
    side: Side,
    id: Seq<u8>,
    now_ms: u64,
)
    requires
        state::clock_ok(now_ms),
    ensures
        stuck(tick_started(s, m, now_ms), side, now_ms) is None,
        ({
            let left = m.remove_keys(
                cids::stale_entries(m, now_ms, STUCK_ORDER_TIMEOUT_MS).dom(),
            );
            left.contains_key(id) ==> !left[id].is_stale(now_ms, STUCK_ORDER_TIMEOUT_MS)
        }),
{
}

/// That a cancel is sent again with every tick does not hide a lost order: while
/// the side is unanswered, it counts as lost when it did without the tick.
pub proof fn law_resent_cancels_hide_nothing(s: State, tick_ms: u64, now_ms: u64, side: Side)
    requires
        s.unanswered(side),
    ensures
        stuck(s.tick_sided(tick_ms), side, now_ms) == stuck(s, side, now_ms),
{
}

/// An order is not lost while its side is reported on: for as long as the timeout
/// after a report, the start of a tick leaves the order of that side alone,
/// however long ago the last action was.
pub proof fn law_reported_side_is_not_stuck(
    s: State,
    er: ExecutionReportView,
    side: Side,
    report_ms: u64,
    later: State,
    m: Map<Seq<u8>, InFlight>,
    now_ms: u64,
)
    requires
        later.last_report_ms(side) >= fills::reported(
            s,
            er,
            Some(side),
            report_ms,
        ).last_report_ms(side),
        now_ms - report_ms <= STUCK_ORDER_TIMEOUT_MS,
    ensures
        stuck(later, side, now_ms) is None,
        tick_started(later, m, now_ms).id(side) == later.id(side),
        tick_started(later, m, now_ms).px_x100(side) == later.px_x100(side),
{
}

} // verus!
