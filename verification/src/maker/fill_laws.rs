//! What reports and fills promise, over the fields of the reports themselves.
use crate::maker::cids::{InFlight, Side};
use crate::maker::fills;
use crate::maker::fills::{ExecStep, FillAmounts};
use crate::maker::hedge;
use crate::maker::hedge::{Hedge, HedgeNext};
use crate::maker::sides;
use crate::maker::sides::SideView;
use crate::maker::state::State;
use crate::sbe::messages::{ExecutionReportAckView, ExecutionReportView};
use crate::search;
use vstd::prelude::*;

verus! {

/// Every report of a trade on an order that is partly filled or filled, with a
/// quantity and a price above zero and a known side, is a fill of that side, and
/// nothing else is: whatever the cumulative quantity, the rest, the ids and all
/// other fields are.
pub proof fn law_every_trade_is_a_fill(er: ExecutionReportView, side: Option<Side>, d: Side)
    ensures
        fills::report_step(er, side) == ExecStep::Fill(d) <==> {
            &&& side == Some(d)
            &&& er.exec_type == 0x46
            &&& er.ord_status == 0x31 || er.ord_status == 0x32
            &&& er.last_qty > 0 && er.last_px > 0
        },
{
}

/// Two reports that agree on exec type, status, last quantity, last price, error
/// code and text, and have the same side, leave the same to do.
pub proof fn law_step_ignores_the_rest(
    a: ExecutionReportView,
    b: ExecutionReportView,
    side: Option<Side>,
)
    requires
        a.exec_type == b.exec_type,
        a.ord_status == b.ord_status,
        a.last_qty == b.last_qty,
        a.last_px == b.last_px,
        a.error_code == b.error_code,
        a.error_text == b.error_text,
    ensures
        fills::report_step(a, side) == fills::report_step(b, side),
{
}

/// A report is a reject exactly where its exec type says so; it tells of too many
/// orders by code -1015, and of missing funds by code -2010 with the words for it.
pub proof fn law_rejects_are_told(er: ExecutionReportView, side: Option<Side>)
    ensures
        fills::report_step(er, side) is Rejected <==> er.exec_type == 0x38,
        fills::report_step(er, side) matches ExecStep::Rejected {
            rate_limited,
            insufficient_balance,
        } ==> {
            &&& rate_limited <==> er.error_code == -1015
            &&& insufficient_balance <==> er.error_code == -2010 && (search::occurs(
                er.error_text,
                search::bytes_of("insufficient balance"),
            ) || search::occurs(er.error_text, search::bytes_of("Insufficient balance")))
        },
{
}

/// The side of a report is that of its side field; where that names none, it is the
/// side under which its client order id was sent, if it was.
pub proof fn law_side_of_a_report(er: ExecutionReportView, sides: Map<Seq<u8>, Side>)
    ensures
        er.side == 0x31 ==> fills::report_side(er, sides) == Some(Side::Buy),
        er.side == 0x32 ==> fills::report_side(er, sides) == Some(Side::Sell),
        er.side != 0x31 && er.side != 0x32 && sides.contains_key(er.cl_ord_id)
            ==> fills::report_side(er, sides) == Some(sides[er.cl_ord_id]),
        er.side != 0x31 && er.side != 0x32 && !sides.contains_key(er.cl_ord_id)
            ==> fills::report_side(er, sides) is None,
{
}

/// The status says that the order is cancelled, rejected, expired or filled.
pub open spec fn ended(ord_status: u8) -> bool {
    ord_status == 0x34 || ord_status == 0x38 || ord_status == 0x43 || ord_status == 0x32
}

/// The exec type or the status says that the order is new.
pub open spec fn started(exec_type: u8, ord_status: u8) -> bool {
    exec_type == 0x30 || ord_status == 0x30
}

/// An action is answered by every report under its id that says that the order is
/// new, ended or rejected, and by no other.
pub proof fn law_answers(er: ExecutionReportView)
    ensures
        fills::answers(er) <==> er.cl_ord_id.len() > 0 && (started(er.exec_type, er.ord_status)
            || ended(er.ord_status) || er.exec_type == 0x38),
        fills::ends_order(er) <==> er.order_id != 0 && ended(er.ord_status),
        fills::binds(er) <==> er.order_id != 0 && er.cl_ord_id.len() > 0 && started(
            er.exec_type,
            er.ord_status,
        ),
{
}

/// The id that rests on a side once a report was noted, before an end in it counts.
pub open spec fn bound_id(s: State, er: ExecutionReportView, side: Option<Side>, d: Side) -> i64 {
    if side == Some(d) && er.order_id != 0 && er.cl_ord_id.len() > 0 && started(
        er.exec_type,
        er.ord_status,
    ) {
        er.order_id
    } else {
        sides::of(s, d).id
    }
}

/// What a report changes of a side: its own side is reported on; a new order gets its
/// id; an order that ended leaves its side, with the filled quantity kept and a
/// cooldown where it was cancelled, and forgotten otherwise; a reject takes the price
/// of its side away. Nothing else of the side changes.
pub proof fn law_report_changes_its_side(
    s: State,
    er: ExecutionReportView,
    side: Option<Side>,
    now_ms: u64,
    d: Side,
)
    requires
        now_ms <= u64::MAX - 1000,
    ensures
        ({
            let t = fills::reported(s, er, side, now_ms);
            let v = sides::of(s, d);
            let id = bound_id(s, er, side, d);
            let gone = er.order_id != 0 && ended(er.ord_status) && id == er.order_id;
            sides::of(t, d) == (SideView {
                id: if gone {
                    0
                } else {
                    id
                },
                px_x100: if gone || (er.exec_type == 0x38 && side == Some(d)) {
                    0
                } else {
                    v.px_x100
                },
                cooldown_ms: if gone && er.ord_status == 0x34 {
                    (now_ms + 20) as u64
                } else {
                    v.cooldown_ms
                },
                filled_e6: if gone && er.ord_status != 0x34 {
                    0
                } else {
                    v.filled_e6
                },
                report_ms: if side == Some(d) {
                    now_ms
                } else {
                    v.report_ms
                },
                ..v
            })
        }),
{
}

/// Beyond the sides, a report changes nothing but that a reject for too many orders
/// halts placement for a second.
pub proof fn law_report_halts_on_rate_limit(
    s: State,
    er: ExecutionReportView,
    side: Option<Side>,
    now_ms: u64,
)
    requires
        now_ms <= u64::MAX - 1000,
    ensures
        ({
            let t = fills::reported(s, er, side, now_ms);
            &&& er.exec_type == 0x38 && er.error_code == -1015 ==> t.halted
                && t.rate_limit_until_ms == now_ms + 1000
            &&& !(er.exec_type == 0x38 && er.error_code == -1015) ==> t.halted == s.halted
                && t.rate_limit_until_ms == s.rate_limit_until_ms
            &&& (State {
                halted: s.halted,
                rate_limit_until_ms: s.rate_limit_until_ms,
                ..sides::common(t)
            }) == sides::common(s)
        }),
{
}

/// An acknowledgement gives a new order of a known id to its side and takes an order
/// that ended off the side on which it rests; it changes nothing else.
pub proof fn law_acknowledgement_changes_ids(
    s: State,
    ack: ExecutionReportAckView,
    sides: Map<Seq<u8>, Side>,
    d: Side,
)
    ensures
        ({
            let t = fills::acked(s, ack, sides);
            let v = crate::maker::sides::of(s, d);
            let id = if started(ack.exec_type, ack.ord_status) && ack.order_id != 0
                && sides.contains_key(ack.cl_ord_id) && sides[ack.cl_ord_id] == d {
                ack.order_id
            } else {
                v.id
            };
            let gone = ack.order_id != 0 && ended(ack.ord_status) && id == ack.order_id;
            &&& crate::maker::sides::of(t, d) == (SideView {
                id: if gone {
                    0
                } else {
                    id
                },
                px_x100: if gone {
                    0
                } else {
                    v.px_x100
                },
                ..v
            })
            &&& crate::maker::sides::common(t) == crate::maker::sides::common(s)
        }),
{
}

/// Every fill is booked: position and average cost are those worked out for it, what
/// it earned and paid is added up, and the fills are counted.
pub proof fn law_fill_is_booked(
    s: State,
    er: ExecutionReportView,
    side: Side,
    f: FillAmounts,
    leaves_below_min: bool,
    now_ms: u64,
)
    requires
        now_ms <= u64::MAX - 1000,
    ensures
        ({
            let t = fills::filled(s, er, side, f, leaves_below_min, now_ms);
            &&& t.inventory_e6 == f.inventory_e6
            &&& t.avg_cost_x100 == f.avg_cost_x100
            &&& i64::MIN <= s.realized_pnl_x1m + f.realized_x1m <= i64::MAX ==> t.realized_pnl_x1m
                == s.realized_pnl_x1m + f.realized_x1m
            &&& i64::MIN <= s.cash_x1m + f.cash_x1m <= i64::MAX ==> t.cash_x1m == s.cash_x1m
                + f.cash_x1m
            &&& s.fills_count < u64::MAX ==> t.fills_count == s.fills_count + 1
            &&& (State {
                inventory_e6: s.inventory_e6,
                avg_cost_x100: s.avg_cost_x100,
                realized_pnl_x1m: s.realized_pnl_x1m,
                cash_x1m: s.cash_x1m,
                fills_count: s.fills_count,
                active_side: s.active_side,
                ..sides::common(t)
            }) == sides::common(s)
        }),
{
}

/// A fill turns the quoting to the other side exactly where the order is filled, or
/// what is left of it is above zero and too little; a remainder of an order with an id
/// is cancelled.
pub proof fn law_fill_turns_the_side(
    s: State,
    er: ExecutionReportView,
    side: Side,
    f: FillAmounts,
    leaves_below_min: bool,
    now_ms: u64,
)
    requires
        now_ms <= u64::MAX - 1000,
    ensures
        ({
            let t = fills::filled(s, er, side, f, leaves_below_min, now_ms);
            let dust = er.ord_status == 0x31 && er.leaves_qty > 0 && leaves_below_min;
            let turns = er.ord_status == 0x32 || dust;
            &&& fills::turns_side(er, leaves_below_min) <==> turns
            &&& turns ==> t.active_side == sides::across(side)
            &&& !turns ==> t.active_side == s.active_side
            &&& dust && er.order_id != 0 ==> fills::dust_order(er, leaves_below_min) == Some(
                er.order_id,
            )
            &&& !(dust && er.order_id != 0) ==> fills::dust_order(er, leaves_below_min) is None
        }),
{
}

/// What a fill changes of the sides. The filled quantity of its side grows by the
/// fill, unless the side turns, which forgets it on both; the cancel of a remainder
/// cools its side down; the pending quantities are those after netting; and nothing
/// else of either side changes.
pub proof fn law_fill_changes_the_sides(
    s: State,
    er: ExecutionReportView,
    side: Side,
    f: FillAmounts,
    leaves_below_min: bool,
    now_ms: u64,
)
    requires
        now_ms <= u64::MAX - 1000,
        i64::MIN <= sides::of(s, side).filled_e6 + f.qty_e6 <= i64::MAX,
    ensures
        ({
            let t = fills::filled(s, er, side, f, leaves_below_min, now_ms);
            let dust = er.ord_status == 0x31 && er.leaves_qty > 0 && leaves_below_min;
            let turned = (er.ord_status == 0x32 || dust) && s.active_side == side;
            let (v, w) = (sides::of(s, side), sides::of(s, sides::across(side)));
            let n = hedge::netted(v.pending_e6, w.pending_e6, f.qty_e6);
            &&& sides::of(t, side) == (SideView {
                filled_e6: if turned {
                    0
                } else {
                    (v.filled_e6 + f.qty_e6) as i64
                },
                cooldown_ms: if dust && er.order_id != 0 {
                    (now_ms + 20) as u64
                } else {
                    v.cooldown_ms
                },
                action_ms: if dust && er.order_id != 0 {
                    now_ms
                } else {
                    v.action_ms
                },
                pending_e6: n.mine,
                ..v
            })
            &&& sides::of(t, sides::across(side)) == (SideView {
                filled_e6: if turned {
                    0
                } else {
                    w.filled_e6
                },
                pending_e6: n.opposite,
                ..w
            })
        }),
{
}

/// Netting takes the same quantity off both sides, as much as both have, and leaves
/// what cannot be netted: one of the two is used up. What is left on the side is due
/// from 0.005 on, all of it.
pub proof fn law_netting(mine: i64, opposite: i64, qty: i64)
    requires
        mine >= 0 && opposite >= 0 && qty >= 0,
        mine + qty <= i64::MAX,
    ensures
        ({
            let n = hedge::netted(mine, opposite, qty);
            let left = if mine + qty > opposite {
                mine + qty - opposite
            } else {
                0
            };
            &&& n.opposite == if mine + qty < opposite {
                opposite - (mine + qty)
            } else {
                0
            }
            &&& left >= 5_000 ==> n.due == Some(left as i64) && n.mine == 0
            &&& left < 5_000 ==> n.due is None && n.mine == left
        }),
{
}

/// What one side has filled hedges the other way round: a fill to buy is hedged by an
/// order to sell of what is due, and a fill to sell by one to buy.
pub proof fn law_hedges_go_the_other_way(s: State, f: FillAmounts)
    ensures
        hedge::due(Side::Buy, fills::fill_netted(s, Side::Buy, f)) == match hedge::netted(
            s.pending_hedge_buy_e6,
            s.pending_hedge_sell_e6,
            f.qty_e6,
        ).due {
            Some(qty_e6) => Some(Hedge { side: Side::Sell, qty_e6 }),
            None => None,
        },
        hedge::due(Side::Sell, fills::fill_netted(s, Side::Sell, f)) == match hedge::netted(
            s.pending_hedge_sell_e6,
            s.pending_hedge_buy_e6,
            f.qty_e6,
        ).due {
            Some(qty_e6) => Some(Hedge { side: Side::Buy, qty_e6 }),
            None => None,
        },
{
}

/// No hedge is sent while hedging is off, and an answer tells of a fill only where it
/// is good in every respect.
pub proof fn law_hedges_sent(h: Option<Hedge>, ok: bool, qty: bool, px: bool)
    ensures
        hedge::sent(h) is None,
        hedge::hedge_filled(ok, qty, px) <==> ok && qty && px,
{
}

/// A fill reduces a position exactly where it brings it nearer to zero: a purchase adds
/// to the position, a sale takes from it.
pub proof fn law_reducing_fills(inventory_e6: i64)
    ensures
        fills::reduces(inventory_e6, Side::Buy) <==> (inventory_e6 + 1) * (inventory_e6 + 1)
            < inventory_e6 * inventory_e6,
        fills::reduces(inventory_e6, Side::Sell) <==> (inventory_e6 - 1) * (inventory_e6 - 1)
            < inventory_e6 * inventory_e6,
{
    let v = inventory_e6 as int;
    assert((v + 1) * (v + 1) == v * v + 2 * v + 1) by (nonlinear_arith);
    assert((v - 1) * (v - 1) == v * v - 2 * v + 1) by (nonlinear_arith);
}

/// A hedge that was filled is booked and not sent again; one that was not is sent once
/// more, and after that everything stops.
pub proof fn law_hedges_are_tried_twice(filled: bool, retried: bool)
    ensures
        hedge::next_of(true, retried) == HedgeNext::Apply,
        hedge::next_of(false, false) == HedgeNext::Retry,
        hedge::next_of(false, true) == HedgeNext::Abort,
        hedge::next_of(filled, retried) == HedgeNext::Retry ==> hedge::next_of(filled, true)
            == HedgeNext::Abort,
{
}

/// A hedge is booked at the hedging venue alone: the position and its cost become what
/// the fill makes of them, what it earned and what it paid add up, and one more hedge is
/// counted. The position that was hedged, the books and the orders stay as they are.
pub proof fn law_hedge_is_booked_at_its_venue(s: State, f: FillAmounts)
    ensures
        ({
            let t = s.hedge_booked(f);
            &&& t.lighter_inv_e6 == f.inventory_e6
            &&& t.lighter_avg_cost_x100 == f.avg_cost_x100
            &&& i64::MIN <= s.lighter_realized_x1m + f.realized_x1m <= i64::MAX
                ==> t.lighter_realized_x1m - s.lighter_realized_x1m == f.realized_x1m
            &&& i64::MIN <= s.lighter_cash_x1m + f.cash_x1m <= i64::MAX ==> t.lighter_cash_x1m
                - s.lighter_cash_x1m == f.cash_x1m
            &&& s.lighter_hedges < u64::MAX ==> t.lighter_hedges == s.lighter_hedges + 1
            &&& t.inventory_e6 == s.inventory_e6
            &&& t == (State {
                lighter_inv_e6: t.lighter_inv_e6,
                lighter_avg_cost_x100: t.lighter_avg_cost_x100,
                lighter_realized_x1m: t.lighter_realized_x1m,
                lighter_cash_x1m: t.lighter_cash_x1m,
                lighter_hedges: t.lighter_hedges,
                ..s
            })
        }),
{
}

/// A report that answers an action takes that action, and no other, off the list of
/// those that wait; any other report leaves the list alone.
pub proof fn law_answered_actions_leave_the_list(
    er: ExecutionReportView,
    m: Map<Seq<u8>, InFlight>,
    id: Seq<u8>,
)
    ensures
        ({
            let left = fills::unanswered_after(er, m);
            let answered = er.cl_ord_id.len() > 0 && (started(er.exec_type, er.ord_status)
                || ended(er.ord_status) || er.exec_type == 0x38);
            &&& left.contains_key(id) <==> m.contains_key(id) && !(answered && id == er.cl_ord_id)
            &&& left.contains_key(id) ==> left[id] == m[id]
        }),
{
}

/// The side of a client id is known until its order ends or is rejected: then it is
/// forgotten, and no other is.
pub proof fn law_sides_are_known_to_the_end(
    er: ExecutionReportView,
    ack: ExecutionReportAckView,
    sides: Map<Seq<u8>, Side>,
    id: Seq<u8>,
)
    ensures
        ({
            let left = fills::sides_after(er, sides);
            let over = er.order_id != 0 && ended(er.ord_status) || er.exec_type == 0x38;
            &&& left.contains_key(id) <==> sides.contains_key(id) && !(over && id == er.cl_ord_id)
            &&& left.contains_key(id) ==> left[id] == sides[id]
        }),
        ({
            let left = fills::sides_after_ack(ack, sides);
            let over = ack.order_id != 0 && ended(ack.ord_status);
            &&& left.contains_key(id) <==> sides.contains_key(id) && !(over && id
                == ack.cl_ord_id)
            &&& left.contains_key(id) ==> left[id] == sides[id]
        }),
{
}

/// What a fill asks for follows from what it did: the side turns exactly where another
/// one is quoted than before; the order to cancel is that of the fill, where little is
/// left of it; what is due goes the other way and, while hedging is off, is not sent.
pub proof fn law_fill_asks(
    s: State,
    er: ExecutionReportView,
    side: Side,
    f: FillAmounts,
    below: bool,
    now_ms: u64,
)
    ensures
        ({
            let step = fills::fill_step(s, er, side, f, below);
            let t = fills::filled(s, er, side, f, below, now_ms);
            let dust = er.ord_status == 0x31 && er.leaves_qty > 0 && below;
            &&& step.flipped <==> t.active_side != s.active_side
            &&& step.flipped <==> s.active_side == side && (er.ord_status == 0x32 || dust)
            &&& dust && er.order_id != 0 ==> step.cancel_dust == Some(er.order_id)
            &&& !dust || er.order_id == 0 ==> step.cancel_dust is None
            &&& step.hedge matches Some(h) ==> h.side != side && h.qty_e6 >= 5_000
            &&& step.send is None
        }),
{
}

} // verus!
