//! Hedging: fills wait until they are worth an order at the other venue.
use crate::maker::cids::Side;
use crate::maker::fills::FillAmounts;
use crate::maker::state::{State, MIN_HEDGE_QTY_E6};
use vstd::prelude::*;

verus! {

/// Whether hedges are sent. While they are not, fills are still netted.
pub const HEDGING_ENABLED: bool = false;

/// An order at the hedging venue.
#[derive(Debug, Clone, Copy, PartialEq, Eq, Structural)]
pub struct Hedge {
    pub side: Side,
    /// In millionths.
    pub qty_e6: i64,
}

/// The waiting fills of a side and of the opposite side, after a fill.
pub struct Netted {
    pub mine: i64,
    pub opposite: i64,
    /// What is to be hedged at once.
    pub due: Option<i64>,
}

/// The quantities that wait on a side, `mine`, and on the opposite side, after
/// a fill of `qty`: they cancel each other out, and what is left on the side is
/// due once it reaches the minimum.
pub open spec fn netted(mine: i64, opposite: i64, qty: i64) -> Netted {
    let m = mine.wrapping_add(qty);
    let net = if m <= opposite {
        m
    } else {
        opposite
    };
    let (m1, o1) = if net > 0 {
        ((m - net) as i64, (opposite - net) as i64)
    } else {
        (m, opposite)
    };
    if m1 >= MIN_HEDGE_QTY_E6 {
        Netted { mine: 0, opposite: o1, due: Some(m1) }
    } else {
        Netted { mine: m1, opposite: o1, due: None }
    }
}

/// The hedge that is due after a fill on `side`: the other way round.
pub open spec fn due(side: Side, n: Netted) -> Option<Hedge> {
    match n.due {
        Some(qty_e6) => Some(Hedge { side: side.other_spec(), qty_e6 }),
        None => None,
    }
}

/// What is sent of a hedge that is due: nothing while hedging is off.
pub open spec fn sent(h: Option<Hedge>) -> Option<Hedge> {
    if HEDGING_ENABLED {
        h
    } else {
        None
    }
}

/// The hedge to send, of one that is due.
pub fn hedge_to_send(h: Option<Hedge>) -> (r: Option<Hedge>)
    ensures
        r == sent(h),
{
    if HEDGING_ENABLED {
        h
    } else {
        None
    }
}

/// What to do about the answer to a hedge.
#[derive(Debug, Clone, Copy, PartialEq, Eq, Structural)]
pub enum HedgeNext {
    /// It was filled: book it.
    Apply,
    /// Send it once more.
    Retry,
    /// It failed twice: cancel everything and stop.
    Abort,
}

/// The answer to a hedge tells of a fill.
pub open spec fn hedge_filled(ok: bool, qty_positive: bool, px_positive: bool) -> bool {
    ok && qty_positive && px_positive
}

/// What to do about the answer to a hedge that was sent once, or again.
pub open spec fn next_of(filled: bool, retried: bool) -> HedgeNext {
    if filled {
        HedgeNext::Apply
    } else if !retried {
        HedgeNext::Retry
    } else {
        HedgeNext::Abort
    }
}

/// Decides on the answer to a hedge; `retried` says that it was sent before.
pub fn hedge_next(ok: bool, qty_positive: bool, px_positive: bool, retried: bool) -> (next:
    HedgeNext)
    ensures
        next == next_of(hedge_filled(ok, qty_positive, px_positive), retried),
{
    if ok && qty_positive && px_positive {
        HedgeNext::Apply
    } else if !retried {
        HedgeNext::Retry
    } else {
        HedgeNext::Abort
    }
}

impl State {
    /// Adds a fill to those that wait for a hedge, nets the two sides, and takes
    /// out what is due.
    pub fn add_pending_hedge(&mut self, side: Side, qty_e6: i64) -> (res: Option<Hedge>)
        ensures
            ({
                let n = netted(
                    old(self).pending_hedge_e6(side),
                    old(self).pending_hedge_e6(side.other_spec()),
                    qty_e6,
                );
                &&& res == due(side, n)
                &&& *final(self) == old(self).with_pending_hedge_e6(
                    side,
                    n.mine,
                ).with_pending_hedge_e6(side.other_spec(), n.opposite)
            }),
    {
        let (before, other) = match side {
            Side::Buy => (self.pending_hedge_buy_e6, self.pending_hedge_sell_e6),
            Side::Sell => (self.pending_hedge_sell_e6, self.pending_hedge_buy_e6),
        };
        let mut mine: i64 = before.wrapping_add(qty_e6);
        let mut opposite: i64 = other;
        let net: i64 = if mine <= opposite {
            mine
        } else {
            opposite
        };
        if net > 0 {
            mine = mine - net;
            opposite = opposite - net;
        }
        let mut res: Option<Hedge> = None;
        if mine >= MIN_HEDGE_QTY_E6 {
            res = Some(Hedge { side: side.other(), qty_e6: mine });
            mine = 0;
        }
        match side {
            Side::Buy => {
                self.pending_hedge_buy_e6 = mine;
                self.pending_hedge_sell_e6 = opposite;
            },
            Side::Sell => {
                self.pending_hedge_sell_e6 = mine;
                self.pending_hedge_buy_e6 = opposite;
            },
        }
        res
    }

    /// This state with a hedge booked.
    pub open spec fn hedge_booked(self, amounts: FillAmounts) -> State {
        State {
            lighter_inv_e6: amounts.inventory_e6,
            lighter_avg_cost_x100: amounts.avg_cost_x100,
            lighter_realized_x1m: self.lighter_realized_x1m.wrapping_add(amounts.realized_x1m),
            lighter_cash_x1m: self.lighter_cash_x1m.wrapping_add(amounts.cash_x1m),
            lighter_hedges: self.lighter_hedges.wrapping_add(1),
            ..self
        }
    }

    /// Books a hedge, if its answer tells of a fill, and says whether it does.
    pub fn apply_lighter_fill(
        &mut self,
        ok: bool,
        qty_positive: bool,
        px_positive: bool,
        amounts: &FillAmounts,
    ) -> (applied: bool)
        ensures
            applied == hedge_filled(ok, qty_positive, px_positive),
            *final(self) == if applied {
                old(self).hedge_booked(*amounts)
            } else {
                *old(self)
            },
    {
        if !(ok && qty_positive && px_positive) {
            return false;
        }
        self.lighter_inv_e6 = amounts.inventory_e6;
        self.lighter_avg_cost_x100 = amounts.avg_cost_x100;
        self.lighter_realized_x1m = self.lighter_realized_x1m.wrapping_add(amounts.realized_x1m);
        self.lighter_cash_x1m = self.lighter_cash_x1m.wrapping_add(amounts.cash_x1m);
        self.lighter_hedges = self.lighter_hedges.wrapping_add(1);
        true
    }
}

/// The waiting quantities of both sides are below the minimum, and one of them
/// is zero.
pub open spec fn is_netted(mine: i64, opposite: i64) -> bool {
    &&& 0 <= mine < MIN_HEDGE_QTY_E6
    &&& 0 <= opposite < MIN_HEDGE_QTY_E6
    &&& mine == 0 || opposite == 0
}

/// No fill is lost and none is hedged twice: what waits and what is due, each
/// side counted against the other, is what waited before and the fill.
pub proof fn law_netting_conserves(mine: i64, opposite: i64, qty: i64)
    requires
        i64::MIN <= mine + qty <= i64::MAX,
    ensures
        ({
            let n = netted(mine, opposite, qty);
            let due = match n.due {
                Some(d) => d as int,
                None => 0,
            };
            n.mine + due - n.opposite == mine + qty - opposite
        }),
{
}

/// A hedge is due exactly when what is left after netting reaches the minimum,
/// and then all of it; what waits stays below the minimum and on one side.
pub proof fn law_hedges_are_batched(mine: i64, opposite: i64, qty: i64)
    requires
        is_netted(mine, opposite),
        0 <= qty <= i64::MAX - MIN_HEDGE_QTY_E6,
    ensures
        ({
            let n = netted(mine, opposite, qty);
            &&& is_netted(n.mine, n.opposite)
            &&& n.due is Some <==> mine + qty - opposite >= MIN_HEDGE_QTY_E6
            &&& n.due matches Some(d) ==> d == mine + qty - opposite && n.mine == 0
        }),
{
}

} // verus!
