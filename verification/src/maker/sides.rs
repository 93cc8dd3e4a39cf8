//! The state side by side, field by field, and what the elementary operations do to
//! it.
use crate::maker::cids::Side;
use crate::maker::state::State;
use vstd::prelude::*;

verus! {

/// What the state holds of one side.
#[verifier::ext_equal]
pub struct SideView {
    pub id: i64,
    pub px_x100: i64,
    pub cooldown_ms: u64,
    pub action_ms: u64,
    pub report_ms: u64,
    pub requote_ms: u64,
    pub filled_e6: i64,
    pub pending_e6: i64,
    pub best_x100: i64,
    pub best_sz_e6: u64,
}

/// One side of the state: the bid's fields for buying, the ask's for selling.
pub open spec fn of(s: State, side: Side) -> SideView {
    if side == Side::Buy {
        SideView {
            id: s.bid_id,
            px_x100: s.bid_px_x100,
            cooldown_ms: s.post_cancel_buy_ms,
            action_ms: s.last_buy_action_ms,
            report_ms: s.last_buy_report_ms,
            requote_ms: s.last_requote_buy_ms,
            filled_e6: s.bid_cum_filled_e6,
            pending_e6: s.pending_hedge_buy_e6,
            best_x100: s.spot_bid_x100,
            best_sz_e6: s.spot_bid_sz_e6,
        }
    } else {
        SideView {
            id: s.ask_id,
            px_x100: s.ask_px_x100,
            cooldown_ms: s.post_cancel_sell_ms,
            action_ms: s.last_sell_action_ms,
            report_ms: s.last_sell_report_ms,
            requote_ms: s.last_requote_sell_ms,
            filled_e6: s.ask_cum_filled_e6,
            pending_e6: s.pending_hedge_sell_e6,
            best_x100: s.spot_ask_x100,
            best_sz_e6: s.spot_ask_sz_e6,
        }
    }
}

/// The side that `side` is not.
pub open spec fn across(side: Side) -> Side {
    if side == Side::Buy {
        Side::Sell
    } else {
        Side::Buy
    }
}

/// What the state holds of neither side: everything else, with the fields of the
/// sides left at zero.
pub open spec fn common(s: State) -> State {
    State {
        bid_id: 0,
        ask_id: 0,
        bid_px_x100: 0,
        ask_px_x100: 0,
        post_cancel_buy_ms: 0,
        post_cancel_sell_ms: 0,
        last_buy_action_ms: 0,
        last_sell_action_ms: 0,
        last_buy_report_ms: 0,
        last_sell_report_ms: 0,
        last_requote_buy_ms: 0,
        last_requote_sell_ms: 0,
        bid_cum_filled_e6: 0,
        ask_cum_filled_e6: 0,
        pending_hedge_buy_e6: 0,
        pending_hedge_sell_e6: 0,
        spot_bid_x100: 0,
        spot_ask_x100: 0,
        spot_bid_sz_e6: 0,
        spot_ask_sz_e6: 0,
        ..s
    }
}

/// `t` differs from `s` in nothing but one side, which is `v` there.
pub open spec fn only_side(s: State, t: State, side: Side, v: SideView) -> bool {
    &&& common(t) == common(s)
    &&& of(t, across(side)) == of(s, across(side))
    &&& of(t, side) == v
}

/// A state is made of its two sides and the rest: states that agree on these are
/// the same.
pub proof fn law_sides_make_the_state(s: State, t: State)
    requires
        common(s) == common(t),
        of(s, Side::Buy) == of(t, Side::Buy),
        of(s, Side::Sell) == of(t, Side::Sell),
    ensures
        s == t,
{
    let (a, b) = (common(s), common(t));
    assert(a.usdt_bid_x100 == b.usdt_bid_x100);
    assert(s =~= t);
}

/// What is read of a side is what the state holds of it.
pub proof fn law_sides_read_their_own(s: State, side: Side)
    ensures
        s.id(side) == of(s, side).id,
        s.px_x100(side) == of(s, side).px_x100,
        s.post_cancel_ms(side) == of(s, side).cooldown_ms,
        s.last_action_ms(side) == of(s, side).action_ms,
        s.last_report_ms(side) == of(s, side).report_ms,
        s.last_requote_ms(side) == of(s, side).requote_ms,
        s.cum_filled_e6(side) == of(s, side).filled_e6,
        s.pending_hedge_e6(side) == of(s, side).pending_e6,
        s.spot_x100(side) == of(s, side).best_x100,
        s.spot_sz_e6(side) == of(s, side).best_sz_e6,
        side.other_spec() == across(side),
{
}

/// To write a field of a side changes that field and nothing else.
pub proof fn law_sides_write_their_own(s: State, side: Side, i: i64, u: u64)
    ensures
        only_side(s, s.with_id(side, i), side, (SideView { id: i, ..of(s, side) })),
        only_side(s, s.with_px_x100(side, i), side, (SideView { px_x100: i, ..of(s, side) })),
        only_side(
            s,
            s.with_last_action_ms(side, u),
            side,
            (SideView { action_ms: u, ..of(s, side) }),
        ),
        only_side(
            s,
            s.with_last_report_ms(side, u),
            side,
            (SideView { report_ms: u, ..of(s, side) }),
        ),
        only_side(
            s,
            s.emptied(side),
            side,
            (SideView { id: 0, px_x100: 0, ..of(s, side) }),
        ),
{
}

/// A cancel keeps its side from placing for 20 ms and is the side's last action; it
/// leaves the order noted, and everything else alone.
pub proof fn law_cancel_changes_its_side_alone(s: State, side: Side, now_ms: u64)
    requires
        now_ms <= u64::MAX - 1000,
    ensures
        only_side(
            s,
            s.cooled(side, now_ms),
            side,
            (SideView { cooldown_ms: (now_ms + 20) as u64, ..of(s, side) }),
        ),
        only_side(
            s,
            s.cancel_sent(side, now_ms),
            side,
            (SideView {
                cooldown_ms: (now_ms + 20) as u64,
                action_ms: now_ms,
                ..of(s, side)
            }),
        ),
        only_side(
            s,
            s.cancel_resent(side, now_ms),
            side,
            (SideView {
                cooldown_ms: (now_ms + 20) as u64,
                action_ms: if of(s, side).action_ms > of(s, side).report_ms {
                    of(s, side).action_ms
                } else {
                    now_ms
                },
                ..of(s, side)
            }),
        ),
{
}

/// To quote a side makes it the side that is quoted; the filled quantities of both
/// sides are forgotten exactly where that is a change, and nothing else changes.
pub proof fn law_turning_forgets_filled_quantities(s: State, side: Side, any: Side)
    ensures
        s.quoting(side).active_side == side,
        of(s.quoting(side), any) == (SideView {
            filled_e6: if s.active_side == side {
                of(s, any).filled_e6
            } else {
                0
            },
            ..of(s, any)
        }),
        (State { active_side: s.active_side, ..common(s.quoting(side)) }) == common(s),
        s.quoting(side).quoting(side) == s.quoting(side),
{
}

/// The orders to cancel are the resting ones: each id that is not zero, the bid's
/// first.
pub proof fn law_resting_orders_are_listed(s: State, id: i64)
    ensures
        s.resting().contains(id) <==> id != 0 && (id == s.bid_id || id == s.ask_id),
        s.bid_id != 0 && s.ask_id != 0 ==> s.resting() == seq![s.bid_id, s.ask_id],
        s.bid_id == 0 && s.ask_id == 0 ==> s.resting().len() == 0,
        s.resting().len() <= 2,
{
    let r = s.resting();
    if s.bid_id != 0 {
        assert(r[0] == s.bid_id);
    }
    if s.ask_id != 0 {
        assert(r[r.len() - 1] == s.ask_id);
    }
    if s.bid_id != 0 && s.ask_id != 0 {
        assert(r =~= seq![s.bid_id, s.ask_id]);
    }
}

/// Before anything was heard nothing is known, nothing rests, nothing is paused or
/// halted, and buying comes first.
pub proof fn law_initial_state_is_empty(side: Side)
    ensures
        of(State::initial(), side) == (SideView {
            id: 0,
            px_x100: 0,
            cooldown_ms: 0,
            action_ms: 0,
            report_ms: 0,
            requote_ms: 0,
            filled_e6: 0,
            pending_e6: 0,
            best_x100: 0,
            best_sz_e6: 0,
        }),
        State::initial().active_side == Side::Buy,
        !State::initial().halted && !State::initial().was_paused,
        State::initial().inventory_e6 == 0 && State::initial().cash_x1m == 0,
        State::initial().pause_epoch == 0 && State::initial().cancelled_epoch is None,
        State::initial().usdt_bid_x100 == 0 && State::initial().usdt_ask_x100 == 0,
        State::initial().usdt_bid_sz_e6 == 0 && State::initial().usdt_ask_sz_e6 == 0,
        State::initial().perp_bid_x100 == 0 && State::initial().perp_ask_x100 == 0,
        State::initial().lighter_bid_x100 == 0 && State::initial().lighter_ask_x100 == 0,
        State::initial().basis_x100 == 0 && State::initial().basis_n == 0,
        State::initial().usdt_mid_ewma_x100 == 0 && State::initial().perp_mid_ewma_x100 == 0,
        State::initial().signed_qty_e6 == 0 && State::initial().qrate_e6 == 0,
        State::initial().last_basis_ts_us == 0 && State::initial().last_usdt_ewma_ts_us == 0,
        State::initial().last_perp_ewma_ts_us == 0 && State::initial().last_signed_qty_ts_us == 0,
        State::initial().realized_pnl_x1m == 0 && State::initial().avg_cost_x100 == 0,
        State::initial().fills_count == 0 && State::initial().rate_limit_until_ms == 0,
        State::initial().lighter_inv_e6 == 0 && State::initial().lighter_cash_x1m == 0,
        State::initial().lighter_realized_x1m == 0 && State::initial().lighter_avg_cost_x100 == 0,
        State::initial().lighter_hedges == 0,
{
}

} // verus!
