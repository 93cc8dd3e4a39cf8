//! When quoting pauses, and what is cancelled then.
use crate::maker::cids;
use crate::maker::cids::{CidMap, InFlight, Side};
use crate::maker::state;
use crate::maker::state::State;
use vstd::prelude::*;

verus! {

/// Least size of both sides of the anchor book, in millionths, for its
/// imbalance to count.
pub const BBO_IMB_MIN_SIZE_E6: i64 = 1_010_000;

/// Where a measurement stands against its two thresholds.
#[derive(Debug, Clone, Copy, PartialEq, Eq, Structural)]
pub struct Trigger {
    /// Above the threshold that starts a pause.
    pub above_pause: bool,
    /// Above the lower threshold that keeps a pause up.
    pub above_unpause: bool,
}

impl Trigger {
    pub open spec fn active_spec(self, paused: bool) -> bool {
        if paused {
            self.above_unpause
        } else {
            self.above_pause
        }
    }

    /// Whether this calls for a pause, given whether there is one.
    pub fn active(&self, paused: bool) -> (b: bool)
        ensures
            b == self.active_spec(paused),
    {
        if paused {
            self.above_unpause
        } else {
            self.above_pause
        }
    }
}

/// The measurements that can call for a pause.
#[derive(Debug, Clone, Copy, PartialEq, Eq, Structural)]
pub struct Signals {
    /// Distance of the anchor's mid from its average.
    pub jump: Trigger,
    /// Impulse of the anchor's trade flow.
    pub impulse: Trigger,
    /// Rate of the anchor's trade flow.
    pub rate: Trigger,
    /// Distance of the perpetual's mid from its average.
    pub perp: Trigger,
}

/// Ratio of the larger to the smaller size of the anchor's best bid and ask,
/// against its two thresholds.
pub type BboRatio = Trigger;

/// What the latch does when quoting is to pause or not: 1 where a pause begins,
/// -1 where it ends, 0 otherwise.
pub open spec fn latch_edge(was: bool, paused: bool) -> int {
    if paused && !was {
        1
    } else if !paused && was {
        -1
    } else {
        0
    }
}

/// What an update of the pause did.
#[derive(Debug, Clone)]
pub enum PauseEdge {
    /// Nothing.
    Unchanged,
    /// A pause began: the resting orders, 0 for none, and the unanswered actions
    /// are to be cancelled.
    Paused { bid_id: i64, ask_id: i64, inflight: Vec<(Vec<u8>, InFlight)> },
    /// The pause is over.
    Resumed,
}

impl PauseEdge {
    /// 1 where a pause begins, -1 where it ends, 0 otherwise.
    pub open spec fn latch(self) -> int {
        match self {
            PauseEdge::Paused { .. } => 1,
            PauseEdge::Resumed => -1,
            PauseEdge::Unchanged => 0,
        }
    }
}

/// What an update of the pause asks for.
#[derive(Debug, Clone)]
pub struct PauseStep {
    pub edge: PauseEdge,
    /// The resting order that a one-sided book threatens.
    pub bbo_cancel: Option<(Side, i64)>,
}

/// An action of a side is unanswered.
pub open spec fn busy(m: Map<Seq<u8>, InFlight>, side: Side) -> bool {
    exists|id: Seq<u8>| #[trigger] m.contains_key(id) && m[id].side == side
}

/// There is something on a side to cancel, `m` being the unanswered actions.
pub open spec fn has_work(s: State, m: Map<Seq<u8>, InFlight>, side: Side) -> bool {
    s.id(side) != 0 || busy(m, side)
}

/// The number of the pause that comes next.
pub open spec fn next_epoch(s: State) -> u64 {
    s.pause_epoch.wrapping_add(1)
}

/// A state in which a pause has just begun, `m` being the unanswered actions:
/// each side on which something is cancelled cools down and has its last action
/// there, and the cancels of the pause count as sent where there are any.
pub open spec fn pause_begun(s: State, m: Map<Seq<u8>, InFlight>, now_ms: u64) -> State {
    let s1 = State {
        was_paused: true,
        pause_epoch: next_epoch(s),
        cancelled_epoch: if has_work(s, m, Side::Buy) || has_work(s, m, Side::Sell) {
            Some(next_epoch(s))
        } else {
            s.cancelled_epoch
        },
        ..s
    };
    let s2 = if has_work(s, m, Side::Buy) {
        s1.cancel_sent(Side::Buy, now_ms)
    } else {
        s1
    };
    if has_work(s, m, Side::Sell) {
        s2.cancel_sent(Side::Sell, now_ms)
    } else {
        s2
    }
}

impl State {
    /// The distance of the anchor's mid from its average is known.
    pub open spec fn jump_ready(self) -> bool {
        self.usdt_bid_x100 != 0 && self.usdt_ask_x100 != 0 && self.usdt_mid_ewma_x100 != 0
    }

    /// The distance of the perpetual's mid from its average is known.
    pub open spec fn perp_ready(self) -> bool {
        self.perp_bid_x100 != 0 && self.perp_ask_x100 != 0 && self.perp_mid_ewma_x100 != 0
    }

    /// Any of the measurements that are known calls for a pause.
    pub open spec fn paused_by(self, sig: Signals) -> bool {
        ||| self.jump_ready() && sig.jump.active_spec(self.was_paused)
        ||| sig.impulse.active_spec(self.was_paused)
        ||| sig.rate.active_spec(self.was_paused)
        ||| self.perp_ready() && sig.perp.active_spec(self.was_paused)
    }

    /// Whether quoting is to pause.
    pub fn is_paused(&self, sig: &Signals) -> (b: bool)
        ensures
            b == self.paused_by(*sig),
    {
        let was = self.was_paused;
        let jump = self.usdt_bid_x100 != 0 && self.usdt_ask_x100 != 0 && self.usdt_mid_ewma_x100
            != 0 && sig.jump.active(was);
        let perp = self.perp_bid_x100 != 0 && self.perp_ask_x100 != 0 && self.perp_mid_ewma_x100
            != 0 && sig.perp.active(was);
        jump || sig.impulse.active(was) || sig.rate.active(was) || perp
    }

    /// The side that the sizes of the anchor's book threaten: more bids than
    /// asks threaten what is offered, more asks than bids what is bid for.
    pub open spec fn threatened(self) -> Option<Side> {
        if self.usdt_bid_sz_e6 < BBO_IMB_MIN_SIZE_E6 || self.usdt_ask_sz_e6 < BBO_IMB_MIN_SIZE_E6 {
            None
        } else if self.usdt_bid_sz_e6 >= self.usdt_ask_sz_e6 {
            Some(Side::Sell)
        } else {
            Some(Side::Buy)
        }
    }

    pub fn threatened_side(&self) -> (side: Option<Side>)
        ensures
            side == self.threatened(),
    {
        if self.usdt_bid_sz_e6 < BBO_IMB_MIN_SIZE_E6 || self.usdt_ask_sz_e6 < BBO_IMB_MIN_SIZE_E6 {
            None
        } else if self.usdt_bid_sz_e6 >= self.usdt_ask_sz_e6 {
            Some(Side::Sell)
        } else {
            Some(Side::Buy)
        }
    }

    /// The resting order to cancel because of a one-sided book: that of the
    /// threatened side, unless the side cools down from a cancel already.
    pub open spec fn bbo_cancel(self, ratio: BboRatio, now_ms: u64) -> Option<(Side, i64)> {
        match self.threatened() {
            Some(side) if ratio.above_pause && self.id(side) != 0 && now_ms >= self.post_cancel_ms(
                side,
            ) => Some((side, self.id(side))),
            _ => None,
        }
    }

    /// This state once that cancel was asked for.
    pub open spec fn after_bbo(self, ratio: BboRatio, now_ms: u64) -> State {
        match self.bbo_cancel(ratio, now_ms) {
            Some((side, _)) => self.cancel_sent(side, now_ms),
            None => self,
        }
    }

    /// This state with the latch of the pause where the measurements put it, `m`
    /// being the unanswered actions.
    pub open spec fn latched(
        self,
        m: Map<Seq<u8>, InFlight>,
        sig: Signals,
        now_ms: u64,
    ) -> State {
        let paused = self.paused_by(sig);
        if paused && !self.was_paused {
            pause_begun(self, m, now_ms)
        } else if !paused && self.was_paused {
            State { was_paused: false, ..self }
        } else {
            self
        }
    }

    /// This state after an update of the pause.
    pub open spec fn pause_updated(
        self,
        m: Map<Seq<u8>, InFlight>,
        sig: Signals,
        ratio: BboRatio,
        now_ms: u64,
    ) -> State {
        self.latched(m, sig, now_ms).after_bbo(ratio, now_ms)
    }

    fn cancel_threatened(&mut self, ratio: &BboRatio, now_ms: u64) -> (res: Option<(Side, i64)>)
        requires
            state::clock_ok(now_ms),
        ensures
            res == old(self).bbo_cancel(*ratio, now_ms),
            *final(self) == old(self).after_bbo(*ratio, now_ms),
    {
        if !ratio.above_pause {
            return None;
        }
        let side = self.threatened_side()?;
        let id: i64 = self.order_id(side);
        let armed_until: u64 = match side {
            Side::Buy => self.post_cancel_buy_ms,
            Side::Sell => self.post_cancel_sell_ms,
        };
        if id == 0 || now_ms < armed_until {
            return None;
        }
        self.note_cancel(side, now_ms);
        Some((side, id))
    }

    /// Begins or ends a pause as the measurements say. A pause that begins asks
    /// for the cancel of everything, once; a one-sided book asks for the cancel
    /// of the threatened side alone, paused or not. The orders stay noted until
    /// the exchange confirms.
    pub fn pause_edge_update(
        &mut self,
        inflight: &mut CidMap<InFlight>,
        sig: &Signals,
        ratio: &BboRatio,
        now_ms: u64,
    ) -> (step: PauseStep)
        requires
            state::clock_ok(now_ms),
        ensures
            step.edge.latch() == latch_edge(old(self).was_paused, old(self).paused_by(*sig)),
            match step.edge {
                PauseEdge::Paused { bid_id, ask_id, inflight: list } => {
                    &&& bid_id == old(self).bid_id
                    &&& ask_id == old(self).ask_id
                    &&& cids::is_list_of(list@, old(inflight)@)
                    &&& final(inflight)@ == Map::<Seq<u8>, InFlight>::empty()
                },
                _ => final(inflight)@ == old(inflight)@,
            },
            step.bbo_cancel == old(self).latched(old(inflight)@, *sig, now_ms).bbo_cancel(
                *ratio,
                now_ms,
            ),
            *final(self) == old(self).pause_updated(old(inflight)@, *sig, *ratio, now_ms),
            final(self).was_paused == old(self).paused_by(*sig),
    {
        let paused = self.is_paused(sig);
        let was = self.was_paused;
        let mut edge = PauseEdge::Unchanged;
        if paused && !was {
            self.was_paused = true;
            self.pause_epoch = self.pause_epoch.wrapping_add(1);
            let bid_id: i64 = self.bid_id;
            let ask_id: i64 = self.ask_id;
            let ghost m = inflight@;
            let list = inflight.drain();
            let mut buys = bid_id != 0;
            let mut sells = ask_id != 0;
            let mut i: usize = 0;
            while i < list.len()
                invariant
                    i <= list@.len(),
                    cids::is_list_of(list@, m),
                    buys == (bid_id != 0 || exists|k: int|
                        0 <= k < i && (#[trigger] list@[k]).1.side == Side::Buy),
                    sells == (ask_id != 0 || exists|k: int|
                        0 <= k < i && (#[trigger] list@[k]).1.side == Side::Sell),
                decreases list@.len() - i,
            {
                match list[i].1.side {
                    Side::Buy => buys = true,
                    Side::Sell => sells = true,
                }
                i = i + 1;
            }
            proof {
                cids::lemma_some_value(list@, m, |e: InFlight| e.side == Side::Buy);
                cids::lemma_some_value(list@, m, |e: InFlight| e.side == Side::Sell);
            }
            if buys || sells {
                self.cancelled_epoch = Some(self.pause_epoch);
            }
            if buys {
                self.note_cancel(Side::Buy, now_ms);
            }
            if sells {
                self.note_cancel(Side::Sell, now_ms);
            }
            edge = PauseEdge::Paused { bid_id, ask_id, inflight: list };
        } else if !paused && was {
            self.was_paused = false;
            edge = PauseEdge::Resumed;
        }
        let bbo_cancel = self.cancel_threatened(ratio, now_ms);
        PauseStep { edge, bbo_cancel }
    }
}

/// Each measurement has its own hysteresis: a pause begins only where a known
/// measurement stands above its upper threshold, and ends only where none stands
/// above its lower one.
pub proof fn law_pause_has_hysteresis(s: State, sig: Signals)
    ensures
        !s.was_paused && s.paused_by(sig) ==> {
            ||| s.jump_ready() && sig.jump.above_pause
            ||| sig.impulse.above_pause
            ||| sig.rate.above_pause
            ||| s.perp_ready() && sig.perp.above_pause
        },
        s.was_paused && !s.paused_by(sig) ==> {
            &&& s.jump_ready() ==> !sig.jump.above_unpause
            &&& !sig.impulse.above_unpause
            &&& !sig.rate.above_unpause
            &&& s.perp_ready() ==> !sig.perp.above_unpause
        },
{
}

} // verus!
