//! What pausing promises, over the measurements and the orders themselves.
use crate::maker::cids::{InFlight, Side};
use crate::maker::pause;
use crate::maker::pause::{BboRatio, Signals};
use crate::maker::sides;
use crate::maker::sides::SideView;
use crate::maker::state::State;
use vstd::prelude::*;

verus! {

/// Both prices of the anchor book and their average are known.
pub open spec fn anchor_known(s: State) -> bool {
    s.usdt_bid_x100 != 0 && s.usdt_ask_x100 != 0 && s.usdt_mid_ewma_x100 != 0
}

/// Both prices of the perpetual and their average are known.
pub open spec fn perp_known(s: State) -> bool {
    s.perp_bid_x100 != 0 && s.perp_ask_x100 != 0 && s.perp_mid_ewma_x100 != 0
}

/// Any one measurement above its upper threshold starts a pause: a burst of trades
/// in every state, a jump of the anchor or of the perpetual where the average is
/// known.
pub proof fn law_any_measurement_starts_a_pause(s: State, sig: Signals)
    requires
        !s.was_paused,
    ensures
        sig.impulse.above_pause ==> s.paused_by(sig),
        sig.rate.above_pause ==> s.paused_by(sig),
        sig.jump.above_pause && anchor_known(s) ==> s.paused_by(sig),
        sig.perp.above_pause && perp_known(s) ==> s.paused_by(sig),
        s.paused_by(sig) ==> sig.impulse.above_pause || sig.rate.above_pause || (
        sig.jump.above_pause && anchor_known(s)) || (sig.perp.above_pause && perp_known(s)),
{
}

/// Any one measurement above its lower threshold keeps a pause up, and a pause ends
/// as soon as none is.
pub proof fn law_any_measurement_keeps_a_pause(s: State, sig: Signals)
    requires
        s.was_paused,
    ensures
        sig.impulse.above_unpause ==> s.paused_by(sig),
        sig.rate.above_unpause ==> s.paused_by(sig),
        sig.jump.above_unpause && anchor_known(s) ==> s.paused_by(sig),
        sig.perp.above_unpause && perp_known(s) ==> s.paused_by(sig),
        s.paused_by(sig) ==> sig.impulse.above_unpause || sig.rate.above_unpause || (
        sig.jump.above_unpause && anchor_known(s)) || (sig.perp.above_unpause && perp_known(s)),
{
}

/// Whether quoting is to pause depends on the measurements, on the pause and on
/// what is known of the two markets: two states that agree there pause together,
/// whatever else they hold.
pub proof fn law_pause_ignores_the_rest(s: State, t: State, sig: Signals)
    requires
        s.was_paused == t.was_paused,
        anchor_known(s) == anchor_known(t),
        perp_known(s) == perp_known(t),
    ensures
        s.paused_by(sig) == t.paused_by(sig),
{
}

/// A book of two sizes of at least 1.01 threatens the side that its heavier side
/// runs over: more bids, or as many, the order to sell, more asks the order to buy.
pub proof fn law_heavier_side_threatens(s: State)
    ensures
        s.usdt_bid_sz_e6 < 1_010_000 || s.usdt_ask_sz_e6 < 1_010_000 <==> s.threatened() is None,
        s.usdt_ask_sz_e6 >= 1_010_000 && s.usdt_bid_sz_e6 >= s.usdt_ask_sz_e6 ==> s.threatened()
            == Some(Side::Sell),
        s.usdt_bid_sz_e6 >= 1_010_000 && s.usdt_ask_sz_e6 > s.usdt_bid_sz_e6 ==> s.threatened()
            == Some(Side::Buy),
{
}

/// A book whose ratio is above the upper threshold has the order of the threatened
/// side cancelled, if there is one and the side does not cool down; nothing else
/// changes, and no other order is cancelled.
pub proof fn law_one_sided_book_cancels(s: State, ratio: BboRatio, now_ms: u64, side: Side)
    requires
        now_ms <= u64::MAX - 1000,
        s.threatened() == Some(side),
    ensures
        s.bbo_cancel(ratio, now_ms) == if ratio.above_pause && sides::of(s, side).id != 0
            && sides::of(s, side).cooldown_ms <= now_ms {
            Some((side, sides::of(s, side).id))
        } else {
            None
        },
        s.bbo_cancel(ratio, now_ms) is Some ==> sides::only_side(
            s,
            s.after_bbo(ratio, now_ms),
            side,
            (SideView {
                cooldown_ms: (now_ms + 20) as u64,
                action_ms: now_ms,
                ..sides::of(s, side)
            }),
        ),
        s.bbo_cancel(ratio, now_ms) is None ==> s.after_bbo(ratio, now_ms) == s,
{
}

/// A book that threatens no side has nothing cancelled.
pub proof fn law_balanced_book_cancels_nothing(s: State, ratio: BboRatio, now_ms: u64)
    requires
        s.usdt_bid_sz_e6 < 1_010_000 || s.usdt_ask_sz_e6 < 1_010_000,
    ensures
        s.bbo_cancel(ratio, now_ms) is None,
        s.after_bbo(ratio, now_ms) == s,
{
}

/// Something of a side is on its way or rests.
pub open spec fn at_work(s: State, m: Map<Seq<u8>, InFlight>, side: Side) -> bool {
    sides::of(s, side).id != 0 || exists|id: Seq<u8>|
        #[trigger] m.contains_key(id) && m[id].side == side
}

/// A pause that begins is latched and numbered one further on. It keeps the orders,
/// the prices, the position and all else as they are, but that each side on which
/// something is at work cools down from the cancel that is sent there.
pub proof fn law_pause_that_begins(s: State, m: Map<Seq<u8>, InFlight>, now_ms: u64, side: Side)
    requires
        now_ms <= u64::MAX - 1000,
    ensures
        ({
            let t = pause::pause_begun(s, m, now_ms);
            &&& t.was_paused
            &&& s.pause_epoch < u64::MAX ==> t.pause_epoch == s.pause_epoch + 1
            &&& t.cancelled_epoch == if at_work(s, m, Side::Buy) || at_work(s, m, Side::Sell) {
                Some(t.pause_epoch)
            } else {
                s.cancelled_epoch
            }
            &&& sides::of(t, side) == if at_work(s, m, side) {
                SideView {
                    cooldown_ms: (now_ms + 20) as u64,
                    action_ms: now_ms,
                    ..sides::of(s, side)
                }
            } else {
                sides::of(s, side)
            }
            &&& (State {
                was_paused: s.was_paused,
                pause_epoch: s.pause_epoch,
                cancelled_epoch: s.cancelled_epoch,
                ..sides::common(t)
            }) == sides::common(s)
        }),
{
    assert(pause::busy(m, side) == exists|id: Seq<u8>|
        #[trigger] m.contains_key(id) && m[id].side == side);
    assert(pause::has_work(s, m, Side::Buy) == at_work(s, m, Side::Buy));
    assert(pause::has_work(s, m, Side::Sell) == at_work(s, m, Side::Sell));
}

/// An update latches the pause as the measurements say. A pause begins where it was
/// not and is to be, and ends where it was and is not to be; else the state is as it
/// was, but for a cancel because of a one-sided book.
pub proof fn law_update_follows_the_measurements(
    s: State,
    m: Map<Seq<u8>, InFlight>,
    sig: Signals,
    ratio: BboRatio,
    now_ms: u64,
)
    requires
        now_ms <= u64::MAX - 1000,
    ensures
        s.pause_updated(m, sig, ratio, now_ms).was_paused == s.paused_by(sig),
        !s.was_paused && s.paused_by(sig) ==> s.latched(m, sig, now_ms) == pause::pause_begun(
            s,
            m,
            now_ms,
        ),
        s.was_paused && !s.paused_by(sig) ==> s.latched(m, sig, now_ms) == (State {
            was_paused: false,
            ..s
        }),
        s.was_paused == s.paused_by(sig) ==> s.latched(m, sig, now_ms) == s,
        s.pause_updated(m, sig, ratio, now_ms) == s.latched(m, sig, now_ms).after_bbo(
            ratio,
            now_ms,
        ),
        pause::latch_edge(s.was_paused, s.paused_by(sig)) == 1 <==> !s.was_paused && s.paused_by(
            sig,
        ),
        pause::latch_edge(s.was_paused, s.paused_by(sig)) == -1 <==> s.was_paused && !s.paused_by(
            sig,
        ),
{
}

} // verus!
