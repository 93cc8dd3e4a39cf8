//! What holds of every cancel.
use crate::maker::cids;
use crate::maker::cids::{InFlight, Side};
use crate::maker::driver;
use crate::maker::fills;
use crate::maker::fills::FillAmounts;
use crate::maker::pause;
use crate::maker::pause::BboRatio;
use crate::maker::router::{PlaceOutcome, PlaceTicket};
use crate::maker::state;
use crate::maker::state::{State, POST_CANCEL_COOLDOWN_MS, STUCK_ORDER_TIMEOUT_MS};
use crate::sbe::messages::ExecutionReportView;
use vstd::prelude::*;

verus! {

/// A side cools down from `now_ms` on, and its last action is then.
pub open spec fn cancelled_at(s: State, side: Side, now_ms: u64) -> bool {
    &&& s.post_cancel_ms(side) == now_ms + POST_CANCEL_COOLDOWN_MS
    &&& s.last_action_ms(side) == now_ms
}

/// Every cancel of a pause cools its side down and is the last action of the side:
/// those that the beginning of the pause asks for, that of the side that a
/// one-sided book threatens, those that the buy side asks for, and that of an order
/// which was on its way.
pub proof fn law_pause_cancels_cool(
    s: State,
    m: Map<Seq<u8>, InFlight>,
    ratio: BboRatio,
    ticket: PlaceTicket,
    sent: bool,
    px_x100: i64,
    gate_ms: u64,
    side: Side,
    now_ms: u64,
)
    requires
        state::clock_ok(now_ms),
    ensures
        pause::has_work(s, m, side) ==> cancelled_at(
            pause::pause_begun(s, m, now_ms),
            side,
            now_ms,
        ),
        s.bbo_cancel(ratio, now_ms) matches Some((threatened, _)) ==> cancelled_at(
            s.after_bbo(ratio, now_ms),
            threatened,
            now_ms,
        ),
        s.entry(Side::Buy, now_ms) is CancelAll && s.id(side) != 0 ==> cancelled_at(
            s.entered(Side::Buy, now_ms),
            side,
            now_ms,
        ),
        s.placed(ticket, sent) == PlaceOutcome::CancelPaused || s.placed(ticket, sent)
            == PlaceOutcome::CancelStale ==> cancelled_at(
            s.place_noted(ticket, side, sent, px_x100, gate_ms, now_ms),
            side,
            now_ms,
        ),
{
}

/// Every other cancel cools its side down and is the last action of the side: that
/// of a remainder too small to go on with, that at the limit of the position, and
/// those of lost orders and of actions that were never answered.
pub proof fn law_other_cancels_cool(
    s: State,
    m: Map<Seq<u8>, InFlight>,
    er: ExecutionReportView,
    amounts: FillAmounts,
    side: Side,
    now_ms: u64,
)
    requires
        state::clock_ok(now_ms),
    ensures
        fills::dust_order(er, true) is Some ==> cancelled_at(
            fills::filled(s, er, side, amounts, true, now_ms),
            side,
            now_ms,
        ),
        cancelled_at(s.capped(side, true, now_ms), side, now_ms),
        driver::stuck(s, side, now_ms) is Some ==> cancelled_at(
            driver::tick_started(s, m, now_ms),
            side,
            now_ms,
        ),
        pause::busy(cids::stale_entries(m, now_ms, STUCK_ORDER_TIMEOUT_MS), side) ==> cancelled_at(
            driver::tick_started(s, m, now_ms),
            side,
            now_ms,
        ),
{
}

/// The cancel of an order on the side that is not quoted cools that side down; the
/// first such cancel since the side was reported on is its last action.
pub proof fn law_stale_cancel_cools(s: State, now_ms: u64)
    requires
        state::clock_ok(now_ms),
        s.stale_order() is Some,
    ensures
        ({
            let other = s.active_side.other_spec();
            let t = s.tick_sided(now_ms);
            &&& t.post_cancel_ms(other) == now_ms + POST_CANCEL_COOLDOWN_MS
            &&& t.last_action_ms(other) == if s.unanswered(other) {
                s.last_action_ms(other)
            } else {
                now_ms
            }
        }),
{
}

} // verus!
