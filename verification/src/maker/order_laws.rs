//! What placing, replacing and giving up orders promises, over the orders and the
//! times themselves.
use crate::maker::cids;
use crate::maker::cids::{InFlight, Side};
use crate::maker::driver;
use crate::maker::pause::BboRatio;
use crate::maker::router;
use crate::maker::router::{Entry, Gate, PlaceOutcome, PlaceTicket};
use crate::maker::sides;
use crate::maker::sides::SideView;
use crate::maker::state;
use crate::maker::state::State;
use vstd::prelude::*;

verus! {

/// An action of a side is not answered yet.
pub open spec fn waits(m: Map<Seq<u8>, InFlight>, side: Side) -> bool {
    exists|id: Seq<u8>| #[trigger] m.contains_key(id) && m[id].side == side
}

/// A side is worked on exactly where nothing is halted, the rate limit is over and
/// quoting is not paused; whichever side it is, then.
pub proof fn law_side_is_worked_on(s: State, side: Side, now_ms: u64)
    ensures
        s.entry(side, now_ms) == Entry::Go <==> !s.halted && s.rate_limit_until_ms <= now_ms
            && !s.was_paused,
        s.entry(side, now_ms) is CancelAll ==> {
            &&& s.was_paused && !s.halted && s.rate_limit_until_ms <= now_ms
            &&& side == Side::Buy
            &&& s.entry(side, now_ms) == Entry::CancelAll { bid_id: s.bid_id, ask_id: s.ask_id }
            &&& s.bid_id != 0 || s.ask_id != 0
        },
        s.was_paused && !s.halted && s.rate_limit_until_ms <= now_ms && (s.bid_id != 0 || s.ask_id
            != 0) && s.cancelled_epoch != Some(s.pause_epoch) ==> s.entry(Side::Buy, now_ms)
            is CancelAll,
        s.entry(side, now_ms) is Stop ==> s.entered(side, now_ms) == s,
        s.entry(side, now_ms) is Go ==> s.entered(side, now_ms) == s,
{
}

/// The cancels of a pause cool each side that has an order down, are noted, and
/// change nothing else.
pub proof fn law_cancel_all_is_noted(s: State, now_ms: u64, side: Side)
    requires
        now_ms <= u64::MAX - 1000,
        s.entry(Side::Buy, now_ms) is CancelAll,
    ensures
        ({
            let t = s.entered(Side::Buy, now_ms);
            &&& t.cancelled_epoch == Some(s.pause_epoch)
            &&& sides::of(t, side) == if sides::of(s, side).id != 0 {
                SideView {
                    cooldown_ms: (now_ms + 20) as u64,
                    action_ms: now_ms,
                    ..sides::of(s, side)
                }
            } else {
                sides::of(s, side)
            }
            &&& (State { cancelled_epoch: s.cancelled_epoch, ..sides::common(t) })
                == sides::common(s)
        }),
{
}

/// The position is at the limit of 0.3 that an order of this side would exceed.
pub open spec fn at_limit(s: State, side: Side) -> bool {
    if side == Side::Buy {
        s.inventory_e6 >= 300_000
    } else {
        s.inventory_e6 <= -300_000
    }
}

/// A side is free: not at the limit, out of its cooldown, with every action
/// answered, and not threatened by a book above the lower threshold.
pub open spec fn is_free(
    s: State,
    m: Map<Seq<u8>, InFlight>,
    side: Side,
    ratio: BboRatio,
    now_ms: u64,
) -> bool {
    &&& !at_limit(s, side)
    &&& sides::of(s, side).cooldown_ms <= now_ms
    &&& !waits(m, side)
    &&& !(ratio.above_unpause && s.threatened() == Some(side))
}

/// A free side without an order has one placed; a free side with an order has that
/// order looked at, under its own id and price; a side at the limit has its order
/// given up; and nothing is done on any other side.
pub proof fn law_gate_of_a_side(
    s: State,
    m: Map<Seq<u8>, InFlight>,
    side: Side,
    ratio: BboRatio,
    now_ms: u64,
)
    ensures
        ({
            let g = s.gate(m, side, ratio, now_ms);
            let v = sides::of(s, side);
            &&& is_free(s, m, side, ratio, now_ms) && v.id == 0 <==> g == Gate::Place
            &&& is_free(s, m, side, ratio, now_ms) && v.id != 0 <==> g == Gate::Resting {
                order_id: v.id,
                px_x100: v.px_x100,
            }
            &&& at_limit(s, side) <==> g == Gate::AtCap { cancel_id: v.id }
            &&& !at_limit(s, side) && !is_free(s, m, side, ratio, now_ms) <==> g == Gate::Idle
        }),
{
    assert(crate::maker::pause::busy(m, side) == waits(m, side));
}

/// What is done on a side does not depend on the other side, nor on the prices, nor
/// on what was quoted before.
pub proof fn law_gate_ignores_the_rest(
    s: State,
    t: State,
    m: Map<Seq<u8>, InFlight>,
    side: Side,
    ratio: BboRatio,
    now_ms: u64,
)
    requires
        s.inventory_e6 == t.inventory_e6,
        sides::of(s, side).id == sides::of(t, side).id,
        sides::of(s, side).px_x100 == sides::of(t, side).px_x100,
        sides::of(s, side).cooldown_ms == sides::of(t, side).cooldown_ms,
        s.usdt_bid_sz_e6 == t.usdt_bid_sz_e6,
        s.usdt_ask_sz_e6 == t.usdt_ask_sz_e6,
    ensures
        s.gate(m, side, ratio, now_ms) == t.gate(m, side, ratio, now_ms),
{
}

/// At the limit the other side is quoted from then on; the order that was given up
/// cools its side down.
pub proof fn law_limit_turns_the_side(s: State, side: Side, cancelled: bool, now_ms: u64)
    requires
        now_ms <= u64::MAX - 1000,
    ensures
        ({
            let t = s.capped(side, cancelled, now_ms);
            &&& t.active_side == sides::across(side)
            &&& sides::of(t, side).cooldown_ms == if cancelled {
                (now_ms + 20) as u64
            } else {
                sides::of(s, side).cooldown_ms
            }
            &&& sides::of(t, side).action_ms == if cancelled {
                now_ms
            } else {
                sides::of(s, side).action_ms
            }
            &&& sides::of(t, side).id == sides::of(s, side).id
            &&& s.active_side == sides::across(side) && !cancelled ==> t == s
            &&& s.active_side == side ==> sides::of(t, side).filled_e6 == 0 && sides::of(
                t,
                sides::across(side),
            ).filled_e6 == 0
            &&& (State { active_side: s.active_side, ..sides::common(t) }) == sides::common(s)
        }),
{
}

/// The book has moved by more than two hundredths on either side, where it was known
/// and is known.
pub open spec fn book_moved(s: State, bid: i64, ask: i64) -> bool {
    &&& bid != 0 && ask != 0 && s.spot_bid_x100 != 0 && s.spot_ask_x100 != 0
    &&& s.spot_bid_x100 - bid > 2 || bid - s.spot_bid_x100 > 2 || s.spot_ask_x100 - ask > 2 || ask
        - s.spot_ask_x100 > 2
}

/// An order that was sent is cancelled where a pause began or is on, or else where
/// the book moved meanwhile; it stands at its price otherwise. One that was not sent
/// is none of these.
pub proof fn law_outcome_of_a_place(s: State, ticket: PlaceTicket, sent: bool)
    ensures
        ({
            let o = s.placed(ticket, sent);
            let paused = s.was_paused || s.pause_epoch != ticket.pause_epoch;
            let moved = book_moved(s, ticket.bid_x100, ticket.ask_x100);
            &&& o == PlaceOutcome::NotSent <==> !sent
            &&& o == PlaceOutcome::CancelPaused <==> sent && paused
            &&& o == PlaceOutcome::CancelStale <==> sent && !paused && moved
            &&& o == PlaceOutcome::Placed <==> sent && !paused && !moved
            &&& s.superseded(ticket) <==> s.pause_epoch != ticket.pause_epoch
            &&& s.bbo_moved(ticket.bid_x100, ticket.ask_x100) <==> moved
        }),
{
}

/// What is noted of an order that was sent: the action in any case, the quote where
/// it was sent, its price where it stands, the cooldown where it is cancelled. The
/// id waits for the exchange, and nothing else changes.
pub proof fn law_place_is_noted(
    s: State,
    ticket: PlaceTicket,
    side: Side,
    sent: bool,
    px_x100: i64,
    gate_ms: u64,
    now_ms: u64,
)
    requires
        now_ms <= u64::MAX - 1000,
    ensures
        ({
            let t = s.place_noted(ticket, side, sent, px_x100, gate_ms, now_ms);
            let o = s.placed(ticket, sent);
            let v = sides::of(s, side);
            sides::only_side(
                s,
                t,
                side,
                (SideView {
                    action_ms: now_ms,
                    requote_ms: if sent {
                        gate_ms
                    } else {
                        v.requote_ms
                    },
                    px_x100: if o == PlaceOutcome::Placed {
                        px_x100
                    } else {
                        v.px_x100
                    },
                    cooldown_ms: if o == PlaceOutcome::CancelPaused || o
                        == PlaceOutcome::CancelStale {
                        (now_ms + 20) as u64
                    } else {
                        v.cooldown_ms
                    },
                    ..v
                }),
            )
        }),
{
}

/// The distance of two prices is the larger less the smaller, whichever comes first.
pub proof fn law_distance(a: i64, b: i64)
    ensures
        router::distance(a, b) == router::distance(b, a),
        router::distance(a, b) >= 0,
        router::distance(a, b) == a - b || router::distance(a, b) == b - a,
{
}

/// An order is lost where there is one, an action was sent on its side, and for more
/// than 45 seconds neither an action was sent there nor a report came.
pub proof fn law_lost_orders(s: State, side: Side, now_ms: u64)
    ensures
        ({
            let v = sides::of(s, side);
            let lost = v.id != 0 && v.action_ms != 0 && now_ms - v.action_ms > 45_000 && now_ms
                - v.report_ms > 45_000;
            &&& lost ==> driver::stuck(s, side, now_ms) == Some(v.id)
            &&& !lost ==> driver::stuck(s, side, now_ms) is None
        }),
{
}

/// The start of a tick forgets the lost orders, cools down each side on which a
/// cancel is sent, and ends a halt; it changes nothing else.
pub proof fn law_tick_clears_the_lost(
    s: State,
    m: Map<Seq<u8>, InFlight>,
    now_ms: u64,
    side: Side,
)
    requires
        now_ms <= u64::MAX - 1000,
    ensures
        ({
            let t = driver::tick_started(s, m, now_ms);
            let v = sides::of(s, side);
            let lost = v.id != 0 && v.action_ms != 0 && now_ms - v.action_ms > 45_000 && now_ms
                - v.report_ms > 45_000;
            let old = exists|id: Seq<u8>| #[trigger]
                m.contains_key(id) && m[id].side == side && now_ms - m[id].since_ms > 45_000;
            &&& !t.halted
            &&& (State { halted: s.halted, ..sides::common(t) }) == sides::common(s)
            &&& sides::of(t, side) == (SideView {
                id: if lost {
                    0
                } else {
                    v.id
                },
                px_x100: if lost {
                    0
                } else {
                    v.px_x100
                },
                cooldown_ms: if lost || old {
                    (now_ms + 20) as u64
                } else {
                    v.cooldown_ms
                },
                action_ms: if lost || old {
                    now_ms
                } else {
                    v.action_ms
                },
                ..v
            })
        }),
{
    let stale = cids::stale_entries(m, now_ms, 45_000);
    assert forall|d: Side| #[trigger] crate::maker::pause::busy(stale, d) == exists|id: Seq<u8>|
        #[trigger] m.contains_key(id) && m[id].side == d && now_ms - m[id].since_ms > 45_000 by {
        if exists|id: Seq<u8>| #[trigger]
            m.contains_key(id) && m[id].side == d && now_ms - m[id].since_ms > 45_000 {
            let id = choose|id: Seq<u8>| #[trigger]
                m.contains_key(id) && m[id].side == d && now_ms - m[id].since_ms > 45_000;
            assert(stale.contains_key(id) && stale[id].side == d);
        }
        if crate::maker::pause::busy(stale, d) {
            let id = choose|id: Seq<u8>| #[trigger] stale.contains_key(id) && stale[id].side == d;
            assert(m.contains_key(id) && m[id].side == d && now_ms - m[id].since_ms > 45_000);
        }
    }
}

/// What a tick drops of the unanswered actions are those older than the limit, with
/// what was noted of them; it keeps all others.
pub proof fn law_stale_actions(
    m: Map<Seq<u8>, InFlight>,
    now_ms: u64,
    max_age_ms: u64,
    id: Seq<u8>,
)
    ensures
        ({
            let stale = cids::stale_entries(m, now_ms, max_age_ms);
            let kept = m.remove_keys(stale.dom());
            &&& stale.contains_key(id) <==> m.contains_key(id) && now_ms > m[id].since_ms
                + max_age_ms
            &&& stale.contains_key(id) ==> stale[id] == m[id]
            &&& kept.contains_key(id) <==> m.contains_key(id) && now_ms <= m[id].since_ms
                + max_age_ms
            &&& kept.contains_key(id) ==> kept[id] == m[id]
        }),
{
}

/// The order on the side that is not quoted is cancelled with every tick; the tick
/// changes the time of that side alone.
pub proof fn law_other_side_is_cancelled(s: State, now_ms: u64)
    requires
        now_ms <= u64::MAX - 1000,
    ensures
        ({
            let other = sides::across(s.active_side);
            let v = sides::of(s, other);
            &&& v.id != 0 ==> s.stale_order() == Some(v.id)
            &&& v.id == 0 ==> s.stale_order() is None && s.tick_sided(now_ms) == s
            &&& v.id != 0 ==> sides::only_side(
                s,
                s.tick_sided(now_ms),
                other,
                (SideView {
                    cooldown_ms: (now_ms + 20) as u64,
                    action_ms: if v.action_ms > v.report_ms {
                        v.action_ms
                    } else {
                        now_ms
                    },
                    ..v
                }),
            )
        }),
{
}

/// An order is replaced only for another price, and then where it drifted far or stands
/// against us; one that stands at its price is left there.
pub proof fn law_replacing(drift_small: bool, adverse: bool, same_price: bool)
    ensures
        !router::replaces(drift_small, adverse, true),
        !router::replaces(true, false, same_price),
        router::replaces(false, adverse, false),
        router::replaces(drift_small, true, false),
{
}

/// An order that is sent while nothing happens stands at its price; one during whose
/// sending a pause began, or the book moved far, is cancelled.
pub proof fn law_ticket_holds_while_nothing_happens(s: State, t: State)
    ensures
        !s.was_paused ==> s.placed(s.ticket(), true) == PlaceOutcome::Placed,
        !s.superseded(s.ticket()),
        t.superseded(s.ticket()) <==> t.pause_epoch != s.pause_epoch,
        t.pause_epoch != s.pause_epoch ==> t.placed(s.ticket(), true)
            == PlaceOutcome::CancelPaused,
        t.pause_epoch == s.pause_epoch && !t.was_paused && s.spot_bid_x100 != 0 && s.spot_ask_x100
            != 0 && t.spot_bid_x100 != 0 && t.spot_ask_x100 != 0 && (t.spot_bid_x100
            - s.spot_bid_x100 > 2 || s.spot_bid_x100 - t.spot_bid_x100 > 2 || t.spot_ask_x100
            - s.spot_ask_x100 > 2 || s.spot_ask_x100 - t.spot_ask_x100 > 2) ==> t.placed(
            s.ticket(),
            true,
        ) == PlaceOutcome::CancelStale,
{
}

/// An order that a pause overtook cools its side down, and its side alone; any other
/// changes nothing.
pub proof fn law_overtaken_order(s: State, ticket: PlaceTicket, side: Side, now_ms: u64)
    requires
        state::clock_ok(now_ms),
    ensures
        ({
            let t = s.supersede_noted(ticket, side, now_ms);
            &&& s.pause_epoch == ticket.pause_epoch ==> t == s
            &&& s.pause_epoch != ticket.pause_epoch ==> sides::only_side(
                s,
                t,
                side,
                (SideView {
                    cooldown_ms: (now_ms + 20) as u64,
                    action_ms: now_ms,
                    ..sides::of(s, side)
                }),
            )
        }),
{
}

/// A tick does nothing exactly while a halt lasts; the line that there is no quote comes
/// at most once in a minute.
pub proof fn law_halts_and_lines_last(s: State, now_ms: u64, last_ms: u64, next_ms: u64)
    ensures
        driver::still_halted(s, now_ms) <==> s.halted && now_ms < s.rate_limit_until_ms,
        driver::noquote_due(last_ms, now_ms) <==> now_ms > last_ms + 60_000,
        driver::noquote_due(last_ms, now_ms) && driver::noquote_due(now_ms, next_ms) ==> next_ms
            - now_ms > 60_000,
{
}

/// An action that is noted waits under its id, on its side, since its time; whatever else
/// waits goes on waiting. Where it could not be sent, it is as if it had not been noted.
pub proof fn law_actions_wait(
    m: Map<Seq<u8>, InFlight>,
    side: Side,
    cid: Seq<u8>,
    id: Seq<u8>,
    now_ms: u64,
)
    ensures
        ({
            let after = router::noted(m, side, cid, now_ms);
            &&& waits(after, side)
            &&& after.contains_key(cid) && after[cid].side == side && after[cid].since_ms == now_ms
            &&& id != cid ==> after.contains_key(id) == m.contains_key(id)
            &&& id != cid && m.contains_key(id) ==> after[id] == m[id]
            &&& router::kept_if(true, after, cid) == after
            &&& !m.contains_key(cid) ==> router::kept_if(false, after, cid) == m
            &&& !router::kept_if(false, after, cid).contains_key(cid)
        }),
{
    let after = router::noted(m, side, cid, now_ms);
    assert(after.contains_key(cid));
    if !m.contains_key(cid) {
        assert(after.remove(cid) =~= m);
    }
}

/// A cancel that was sent cools its side down, and its side alone; one that could not be
/// sent changes nothing.
pub proof fn law_cancel_is_noted_if_sent(s: State, side: Side, now_ms: u64)
    requires
        state::clock_ok(now_ms),
    ensures
        s.cancel_noted(side, false, now_ms) == s,
        sides::only_side(
            s,
            s.cancel_noted(side, true, now_ms),
            side,
            (SideView {
                cooldown_ms: (now_ms + 20) as u64,
                action_ms: now_ms,
                ..sides::of(s, side)
            }),
        ),
{
}

} // verus!
