//! What the exchange reports of orders: acknowledgements, rejects and fills.
use crate::maker::cids::{CidMap, InFlight, Side};
use crate::maker::hedge;
use crate::maker::hedge::{hedge_to_send, Hedge};
use crate::maker::state;
use crate::maker::state::{State, RATE_LIMIT_HALT_MS};
use crate::sbe::consts::{
    EXECTYPE_NEW, EXECTYPE_REJECTED, EXECTYPE_TRADE, ORDSTATUS_CANCELED, ORDSTATUS_EXPIRED,
    ORDSTATUS_FILLED, ORDSTATUS_NEW, ORDSTATUS_PARTIALLY_FILLED, ORDSTATUS_REJECTED, SIDE_BUY,
    SIDE_SELL,
};
use crate::sbe::messages::{
    ExecutionReport, ExecutionReportAck, ExecutionReportAckView, ExecutionReportView,
};
use crate::search;
use crate::search::has;
use vstd::prelude::*;

verus! {

/// Error code of the exchange for too many orders.
pub const ERR_TOO_MANY_ORDERS: i32 = -1015;

/// Error code of the exchange for a new order that it refuses.
pub const ERR_NEW_ORDER_REJECTED: i32 = -2010;

/// What is left to do about an ExecutionReport.
#[derive(Debug, Clone, Copy, PartialEq, Eq, Structural)]
pub enum ExecStep {
    /// Nothing.
    Done,
    /// The order was refused.
    Rejected {
        /// There were too many orders: placement is halted.
        rate_limited: bool,
        /// There are no funds: to go on would only repeat the refusal.
        insufficient_balance: bool,
    },
    /// The order was filled on this side; the fill is to be booked.
    Fill(Side),
}

/// The order is new.
pub open spec fn is_new(exec_type: u8, ord_status: u8) -> bool {
    exec_type == EXECTYPE_NEW || ord_status == ORDSTATUS_NEW
}

/// The order ended without being filled.
pub open spec fn is_dead(ord_status: u8) -> bool {
    ord_status == ORDSTATUS_CANCELED || ord_status == ORDSTATUS_REJECTED || ord_status
        == ORDSTATUS_EXPIRED
}

/// The order ended.
pub open spec fn is_over(ord_status: u8) -> bool {
    ord_status == ORDSTATUS_FILLED || is_dead(ord_status)
}

/// The side of a report: that of its field, or else of its client order id.
pub open spec fn report_side(er: ExecutionReportView, sides: Map<Seq<u8>, Side>) -> Option<Side> {
    if er.side == SIDE_BUY {
        Some(Side::Buy)
    } else if er.side == SIDE_SELL {
        Some(Side::Sell)
    } else if sides.contains_key(er.cl_ord_id) {
        Some(sides[er.cl_ord_id])
    } else {
        None
    }
}

/// The report answers the action of its client order id.
pub open spec fn answers(er: ExecutionReportView) -> bool {
    &&& er.cl_ord_id.len() > 0
    &&& is_new(er.exec_type, er.ord_status) || is_over(er.ord_status) || er.exec_type
        == EXECTYPE_REJECTED
}

/// The report gives a side's order its id.
pub open spec fn binds(er: ExecutionReportView) -> bool {
    is_new(er.exec_type, er.ord_status) && er.order_id != 0 && er.cl_ord_id.len() > 0
}

/// The report ends an order that has an id.
pub open spec fn ends_order(er: ExecutionReportView) -> bool {
    er.order_id != 0 && is_over(er.ord_status)
}

/// The unanswered actions after a report.
pub open spec fn unanswered_after(
    er: ExecutionReportView,
    m: Map<Seq<u8>, InFlight>,
) -> Map<Seq<u8>, InFlight> {
    if answers(er) {
        m.remove(er.cl_ord_id)
    } else {
        m
    }
}

/// The sides of the client ids after a report.
pub open spec fn sides_after(
    er: ExecutionReportView,
    sides: Map<Seq<u8>, Side>,
) -> Map<Seq<u8>, Side> {
    if ends_order(er) || er.exec_type == EXECTYPE_REJECTED {
        sides.remove(er.cl_ord_id)
    } else {
        sides
    }
}

/// The sides of the client ids after an acknowledgement.
pub open spec fn sides_after_ack(
    ack: ExecutionReportAckView,
    sides: Map<Seq<u8>, Side>,
) -> Map<Seq<u8>, Side> {
    if ack.order_id != 0 && is_over(ack.ord_status) {
        sides.remove(ack.cl_ord_id)
    } else {
        sides
    }
}

/// The state once the order of a side with this id has ended. A cancelled order
/// keeps its filled quantity, so that the next one is smaller by it, and cools
/// the side down.
pub open spec fn order_ended(
    s: State,
    side: Side,
    order_id: i64,
    ord_status: u8,
    now_ms: u64,
) -> State {
    if s.id(side) != order_id {
        s
    } else if ord_status == ORDSTATUS_CANCELED {
        s.emptied(side).cooled(side, now_ms)
    } else {
        s.emptied(side).with_cum_filled_e6(side, 0)
    }
}

/// The state once a report was noted, but for its fill.
pub open spec fn reported(
    s: State,
    er: ExecutionReportView,
    side: Option<Side>,
    now_ms: u64,
) -> State {
    let s0 = match side {
        Some(side) => s.with_last_report_ms(side, now_ms),
        None => s,
    };
    let s1 = match side {
        Some(side) if binds(er) => s0.with_id(side, er.order_id),
        _ => s0,
    };
    let s2 = if ends_order(er) {
        order_ended(
            order_ended(s1, Side::Buy, er.order_id, er.ord_status, now_ms),
            Side::Sell,
            er.order_id,
            er.ord_status,
            now_ms,
        )
    } else {
        s1
    };
    if er.exec_type != EXECTYPE_REJECTED {
        s2
    } else {
        let s3 = match side {
            Some(side) => s2.with_px_x100(side, 0),
            None => s2,
        };
        if er.error_code == ERR_TOO_MANY_ORDERS {
            State { halted: true, rate_limit_until_ms: (now_ms + RATE_LIMIT_HALT_MS) as u64, ..s3 }
        } else {
            s3
        }
    }
}

/// The exchange refused an order for want of funds.
pub open spec fn lacks_funds(er: ExecutionReportView) -> bool {
    &&& er.error_code == ERR_NEW_ORDER_REJECTED
    &&& search::occurs(er.error_text, search::bytes_of("insufficient balance"))
        || search::occurs(er.error_text, search::bytes_of("Insufficient balance"))
}

/// What is left to do about a report.
pub open spec fn report_step(er: ExecutionReportView, side: Option<Side>) -> ExecStep {
    if er.exec_type == EXECTYPE_REJECTED {
        ExecStep::Rejected {
            rate_limited: er.error_code == ERR_TOO_MANY_ORDERS,
            insufficient_balance: lacks_funds(er),
        }
    } else {
        match side {
            Some(side) if er.exec_type == EXECTYPE_TRADE && (er.ord_status
                == ORDSTATUS_PARTIALLY_FILLED || er.ord_status == ORDSTATUS_FILLED) && er.last_qty
                > 0 && er.last_px > 0 => ExecStep::Fill(side),
            _ => ExecStep::Done,
        }
    }
}

fn order_is_over(ord_status: u8) -> (b: bool)
    ensures
        b == is_over(ord_status),
{
    ord_status == ORDSTATUS_FILLED || ord_status == ORDSTATUS_CANCELED || ord_status
        == ORDSTATUS_REJECTED || ord_status == ORDSTATUS_EXPIRED
}

/// What a fill changes, worked out from its price and quantity.
#[derive(Debug, Clone, Copy, PartialEq, Eq, Structural)]
pub struct FillAmounts {
    /// The position after the fill, in millionths.
    pub inventory_e6: i64,
    /// Its average cost, in hundredths.
    pub avg_cost_x100: i64,
    /// What the fill earned, in millionths.
    pub realized_x1m: i64,
    /// What it added to the cash, in millionths.
    pub cash_x1m: i64,
    /// Filled quantity, in millionths.
    pub qty_e6: i64,
}

/// A fill on `side` reduces a position.
pub open spec fn reduces(inventory_e6: i64, side: Side) -> bool {
    match side {
        Side::Buy => inventory_e6 < 0,
        Side::Sell => inventory_e6 > 0,
    }
}

/// Whether a fill on `side` reduces a position, so that it earns or loses
/// something; any other fill only moves the average cost.
pub fn reduces_position(inventory_e6: i64, side: Side) -> (b: bool)
    ensures
        b == reduces(inventory_e6, side),
{
    match side {
        Side::Buy => inventory_e6 < 0,
        Side::Sell => inventory_e6 > 0,
    }
}

/// What a booked fill asks for.
#[derive(Debug, Clone, Copy, PartialEq, Eq, Structural)]
pub struct FillStep {
    /// The other side is quoted from now on.
    pub flipped: bool,
    /// The order whose small remainder is to be cancelled.
    pub cancel_dust: Option<i64>,
    /// The hedge that is due.
    pub hedge: Option<Hedge>,
    /// The hedge to send, which is none while hedging is off.
    pub send: Option<Hedge>,
}

/// What is left of a partly filled order is too little to hedge.
pub open spec fn leaves_dust(er: ExecutionReportView, leaves_below_min: bool) -> bool {
    er.ord_status == ORDSTATUS_PARTIALLY_FILLED && er.leaves_qty > 0 && leaves_below_min
}

/// The state with a fill in the books.
pub open spec fn booked(s: State, side: Side, f: FillAmounts) -> State {
    let s1 = State {
        inventory_e6: f.inventory_e6,
        avg_cost_x100: f.avg_cost_x100,
        realized_pnl_x1m: s.realized_pnl_x1m.wrapping_add(f.realized_x1m),
        cash_x1m: s.cash_x1m.wrapping_add(f.cash_x1m),
        fills_count: s.fills_count.wrapping_add(1),
        ..s
    };
    s1.with_cum_filled_e6(side, s1.cum_filled_e6(side).wrapping_add(f.qty_e6))
}

/// The fill turns the quoting to the other side.
pub open spec fn turns_side(er: ExecutionReportView, leaves_below_min: bool) -> bool {
    er.ord_status == ORDSTATUS_FILLED || leaves_dust(er, leaves_below_min)
}

/// The order whose small remainder is to be cancelled.
pub open spec fn dust_order(er: ExecutionReportView, leaves_below_min: bool) -> Option<i64> {
    if leaves_dust(er, leaves_below_min) && er.order_id != 0 {
        Some(er.order_id)
    } else {
        None
    }
}

/// The quantities that wait for a hedge after a fill.
pub open spec fn fill_netted(s: State, side: Side, f: FillAmounts) -> hedge::Netted {
    hedge::netted(s.pending_hedge_e6(side), s.pending_hedge_e6(side.other_spec()), f.qty_e6)
}

/// What a booked fill asks for.
pub open spec fn fill_step(
    s: State,
    er: ExecutionReportView,
    side: Side,
    f: FillAmounts,
    leaves_below_min: bool,
) -> FillStep {
    let due = hedge::due(side, fill_netted(s, side, f));
    FillStep {
        flipped: turns_side(er, leaves_below_min) && s.active_side == side,
        cancel_dust: dust_order(er, leaves_below_min),
        hedge: due,
        send: hedge::sent(due),
    }
}

/// The state once a fill was booked.
pub open spec fn filled(
    s: State,
    er: ExecutionReportView,
    side: Side,
    f: FillAmounts,
    leaves_below_min: bool,
    now_ms: u64,
) -> State {
    let n = fill_netted(s, side, f);
    let s1 = booked(s, side, f);
    let s2 = if turns_side(er, leaves_below_min) {
        s1.quoting(side.other_spec())
    } else {
        s1
    };
    let s3 = if dust_order(er, leaves_below_min) is Some {
        s2.cancel_sent(side, now_ms)
    } else {
        s2
    };
    s3.with_pending_hedge_e6(side, n.mine).with_pending_hedge_e6(side.other_spec(), n.opposite)
}

impl State {
    /// The order of a side has ended, if it has this id.
    fn end_order(&mut self, side: Side, order_id: i64, ord_status: u8, now_ms: u64)
        requires
            state::clock_ok(now_ms),
        ensures
            *final(self) == order_ended(*old(self), side, order_id, ord_status, now_ms),
    {
        if self.order_id(side) != order_id {
            return;
        }
        self.clear_slot(side);
        if ord_status == ORDSTATUS_CANCELED {
            self.arm_post_cancel_cooldown(side, now_ms);
        } else {
            match side {
                Side::Buy => self.bid_cum_filled_e6 = 0,
                Side::Sell => self.ask_cum_filled_e6 = 0,
            }
        }
    }

    /// Notes what an ExecutionReport says, but for the amounts of a fill: that its
    /// side was reported on, the order's id, its end, the answer to an action, a
    /// reject.
    pub fn handle_exec_report(
        &mut self,
        inflight: &mut CidMap<InFlight>,
        cid_sides: &mut CidMap<Side>,
        er: &ExecutionReport,
        now_ms: u64,
    ) -> (step: ExecStep)
        requires
            state::clock_ok(now_ms),
        ensures
            ({
                let side = report_side(er@, old(cid_sides)@);
                &&& step == report_step(er@, side)
                &&& *final(self) == reported(*old(self), er@, side, now_ms)
            }),
            final(inflight)@ == unanswered_after(er@, old(inflight)@),
            final(cid_sides)@ == sides_after(er@, old(cid_sides)@),
    {
        let cid = er.cl_ord_id.as_slice();
        let side = if er.side == SIDE_BUY {
            Some(Side::Buy)
        } else if er.side == SIDE_SELL {
            Some(Side::Sell)
        } else {
            cid_sides.get(cid)
        };
        let new = er.exec_type == EXECTYPE_NEW || er.ord_status == ORDSTATUS_NEW;
        let over = order_is_over(er.ord_status);
        let rejected = er.exec_type == EXECTYPE_REJECTED;

        if let Some(side) = side {
            self.stamp_report(side, now_ms);
        }
        if new && er.order_id != 0 && cid.len() > 0 {
            if let Some(side) = side {
                self.set_order_id(side, er.order_id);
            }
        }
        if (new || over || rejected) && cid.len() > 0 {
            inflight.remove(cid);
        }
        if er.order_id != 0 && over {
            self.end_order(Side::Buy, er.order_id, er.ord_status, now_ms);
            self.end_order(Side::Sell, er.order_id, er.ord_status, now_ms);
            cid_sides.remove(cid);
        }
        if rejected {
            if let Some(side) = side {
                self.set_order_px_x100(side, 0);
            }
            let ghost sides = cid_sides@;
            cid_sides.remove(cid);
            assert(sides.remove(cid@) =~= old(cid_sides)@.remove(cid@));
            let rate_limited = er.error_code == ERR_TOO_MANY_ORDERS;
            if rate_limited {
                self.halted = true;
                self.rate_limit_until_ms = now_ms + RATE_LIMIT_HALT_MS;
            }
            let text = er.error_text.as_slice();
            let insufficient_balance = er.error_code == ERR_NEW_ORDER_REJECTED && (has(
                text,
                "insufficient balance",
            ) || has(text, "Insufficient balance"));
            return ExecStep::Rejected { rate_limited, insufficient_balance };
        }
        if er.exec_type != EXECTYPE_TRADE || (er.ord_status != ORDSTATUS_PARTIALLY_FILLED
            && er.ord_status != ORDSTATUS_FILLED) {
            return ExecStep::Done;
        }
        if er.last_qty <= 0 || er.last_px <= 0 {
            return ExecStep::Done;
        }
        match side {
            Some(side) => ExecStep::Fill(side),
            None => ExecStep::Done,
        }
    }

    /// Books a fill. An order that is filled, or whose remainder is too small to
    /// go on with, turns the quoting to the other side; the remainder is to be
    /// cancelled, and cools its side down. The quantity waits for a hedge together
    /// with earlier ones.
    pub fn on_fill(
        &mut self,
        er: &ExecutionReport,
        side: Side,
        amounts: &FillAmounts,
        leaves_below_min: bool,
        now_ms: u64,
    ) -> (step: FillStep)
        requires
            state::clock_ok(now_ms),
        ensures
            step == fill_step(*old(self), er@, side, *amounts, leaves_below_min),
            *final(self) == filled(*old(self), er@, side, *amounts, leaves_below_min, now_ms),
    {
        self.inventory_e6 = amounts.inventory_e6;
        self.avg_cost_x100 = amounts.avg_cost_x100;
        self.realized_pnl_x1m = self.realized_pnl_x1m.wrapping_add(amounts.realized_x1m);
        self.cash_x1m = self.cash_x1m.wrapping_add(amounts.cash_x1m);
        self.fills_count = self.fills_count.wrapping_add(1);
        match side {
            Side::Buy => {
                self.bid_cum_filled_e6 = self.bid_cum_filled_e6.wrapping_add(amounts.qty_e6);
            },
            Side::Sell => {
                self.ask_cum_filled_e6 = self.ask_cum_filled_e6.wrapping_add(amounts.qty_e6);
            },
        }
        let dust = er.ord_status == ORDSTATUS_PARTIALLY_FILLED && er.leaves_qty > 0
            && leaves_below_min;
        let mut flipped = false;
        let mut cancel_dust: Option<i64> = None;
        if er.ord_status == ORDSTATUS_FILLED || dust {
            flipped = self.flip_to(side.other());
            if dust && er.order_id != 0 {
                cancel_dust = Some(er.order_id);
                self.note_cancel(side, now_ms);
            }
        }
        let hedge = self.add_pending_hedge(side, amounts.qty_e6);
        FillStep { flipped, cancel_dust, hedge, send: hedge_to_send(hedge) }
    }

    /// Notes what an ExecutionReportAck says: it carries no fill, so only the
    /// orders' ids change. Says whether the order was refused.
    pub fn handle_exec_report_ack(&mut self, cid_sides: &mut CidMap<Side>, ack: &ExecutionReportAck)
        -> (rejected: bool)
        ensures
            rejected == (ack@.exec_type == EXECTYPE_REJECTED),
            *final(self) == acked(*old(self), ack@, old(cid_sides)@),
            final(cid_sides)@ == sides_after_ack(ack@, old(cid_sides)@),
    {
        let cid = ack.cl_ord_id.as_slice();
        if (ack.exec_type == EXECTYPE_NEW || ack.ord_status == ORDSTATUS_NEW) && ack.order_id
            != 0 {
            if let Some(side) = cid_sides.get(cid) {
                self.set_order_id(side, ack.order_id);
            }
        }
        if ack.order_id != 0 && order_is_over(ack.ord_status) {
            if self.bid_id == ack.order_id {
                self.clear_slot(Side::Buy);
            }
            if self.ask_id == ack.order_id {
                self.clear_slot(Side::Sell);
            }
            cid_sides.remove(cid);
        }
        ack.exec_type == EXECTYPE_REJECTED
    }
}

/// The state once an ExecutionReportAck was noted.
pub open spec fn acked(s: State, ack: ExecutionReportAckView, sides: Map<Seq<u8>, Side>) -> State {
    let s1 = if is_new(ack.exec_type, ack.ord_status) && ack.order_id != 0 && sides.contains_key(
        ack.cl_ord_id,
    ) {
        s.with_id(sides[ack.cl_ord_id], ack.order_id)
    } else {
        s
    };
    if ack.order_id != 0 && is_over(ack.ord_status) {
        let s2 = if s1.bid_id == ack.order_id {
            s1.emptied(Side::Buy)
        } else {
            s1
        };
        if s2.ask_id == ack.order_id {
            s2.emptied(Side::Sell)
        } else {
            s2
        }
    } else {
        s1
    }
}

/// An order that has ended rests on neither side, whoever reported it.
pub proof fn law_ended_order_is_forgotten(
    s: State,
    er: ExecutionReportView,
    ack: ExecutionReportAckView,
    sides: Map<Seq<u8>, Side>,
    now_ms: u64,
)
    requires
        state::clock_ok(now_ms),
    ensures
        ends_order(er) ==> ({
            let t = reported(s, er, report_side(er, sides), now_ms);
            t.bid_id != er.order_id && t.ask_id != er.order_id
        }),
        ack.order_id != 0 && is_over(ack.ord_status) ==> ({
            let t = acked(s, ack, sides);
            t.bid_id != ack.order_id && t.ask_id != ack.order_id
        }),
{
}

/// A cancelled order keeps its filled quantity; an order that ended otherwise
/// loses it.
pub proof fn law_cancel_keeps_filled_quantity(
    s: State,
    er: ExecutionReportView,
    side: Side,
    now_ms: u64,
)
    requires
        ends_order(er),
        !is_new(er.exec_type, er.ord_status),
        s.id(side) == er.order_id,
    ensures
        reported(s, er, Some(side), now_ms).cum_filled_e6(side) == if er.ord_status
            == ORDSTATUS_CANCELED {
            s.cum_filled_e6(side)
        } else {
            0
        },
{
}

/// A report that binds an order makes it the resting order of its side, unless
/// the same report ends it.
pub proof fn law_new_order_is_bound(s: State, er: ExecutionReportView, side: Side, now_ms: u64)
    requires
        binds(er),
        !is_over(er.ord_status),
    ensures
        reported(s, er, Some(side), now_ms).id(side) == er.order_id,
        reported(s, er, Some(side), now_ms).id(side.other_spec()) == s.id(side.other_spec()),
{
}

} // verus!
