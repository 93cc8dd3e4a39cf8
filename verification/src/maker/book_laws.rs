//! What the books promise, over the prices and sizes themselves.
use crate::maker::books;
use crate::maker::books::{AnchorAmounts, EwmaStep, SpotAmounts};
use crate::maker::cids::Side;
use crate::maker::sides;
use crate::maker::sides::SideView;
use crate::maker::state::State;
use crate::sbe::messages::BookTickerView;
use vstd::prelude::*;

verus! {

/// Our order rests at the best price of a side, and the size there is no more than
/// what is left of our 0.15.
pub open spec fn alone_at_best(v: SideView) -> bool {
    v.id != 0 && v.px_x100 == v.best_x100 && (v.best_sz_e6 == 0 || v.best_sz_e6 + v.filled_e6
        <= 150_000)
}

/// The fair value is known exactly where both sides of the traded book are known
/// and neither best price is ours alone; twice its value is then the sum of the
/// best bid and the best ask.
pub proof fn law_fair_value_is_the_middle_of_the_book(s: State)
    ensures
        s.fair_value_spec() is Some <==> s.spot_bid_x100 != 0 && s.spot_ask_x100 != 0
            && !alone_at_best(sides::of(s, Side::Buy)) && !alone_at_best(sides::of(s, Side::Sell)),
        s.fair_value_spec() matches Some(v) ==> v == s.spot_bid_x100 + s.spot_ask_x100,
        s.bid_id == 0 && s.ask_id == 0 && s.spot_bid_x100 != 0 && s.spot_ask_x100 != 0
            ==> s.fair_value_spec() == Some(s.spot_bid_x100 + s.spot_ask_x100),
{
}

/// The fair value of a book that is not crossed lies between its bid and its ask.
pub proof fn law_fair_value_lies_within_the_spread(s: State)
    requires
        s.spot_bid_x100 <= s.spot_ask_x100,
    ensures
        s.fair_value_spec() matches Some(v) ==> 2 * s.spot_bid_x100 <= v <= 2 * s.spot_ask_x100,
{
}

/// The fair value, and whether there is a quote, depend on the traded book and on
/// our resting orders alone: neither the position nor anything else moves them.
pub proof fn law_fair_value_ignores_the_rest(s: State, t: State)
    requires
        s.spot_bid_x100 == t.spot_bid_x100 && s.spot_ask_x100 == t.spot_ask_x100,
        s.spot_bid_sz_e6 == t.spot_bid_sz_e6 && s.spot_ask_sz_e6 == t.spot_ask_sz_e6,
        s.bid_id == t.bid_id && s.ask_id == t.ask_id,
        s.bid_px_x100 == t.bid_px_x100 && s.ask_px_x100 == t.ask_px_x100,
        s.bid_cum_filled_e6 == t.bid_cum_filled_e6 && s.ask_cum_filled_e6 == t.ask_cum_filled_e6,
    ensures
        s.fair_value_spec() == t.fair_value_spec(),
        s.quotable_spec() == t.quotable_spec(),
        s.non_self_x100(Side::Buy) == t.non_self_x100(Side::Buy),
        s.non_self_x100(Side::Sell) == t.non_self_x100(Side::Sell),
{
}

/// The best price without our own is the best price of the book, or unknown where
/// that price is ours alone.
pub proof fn law_non_self_price(s: State, side: Side)
    ensures
        s.non_self_x100(side) == if alone_at_best(sides::of(s, side)) {
            0
        } else {
            sides::of(s, side).best_x100
        },
        sides::of(s, side).id == 0 ==> s.non_self_x100(side) == sides::of(s, side).best_x100,
        sides::of(s, side).px_x100 != sides::of(s, side).best_x100 ==> s.non_self_x100(side)
            == sides::of(s, side).best_x100,
{
}

/// There is a quote exactly where the fair value is known and above zero in a book
/// that is not crossed.
pub proof fn law_quotable_books(s: State)
    ensures
        s.quotable_spec() <==> {
            &&& s.spot_bid_x100 != 0 && s.spot_ask_x100 != 0
            &&& !alone_at_best(sides::of(s, Side::Buy))
            &&& !alone_at_best(sides::of(s, Side::Sell))
            &&& s.spot_bid_x100 < s.spot_ask_x100
            &&& s.spot_bid_x100 + s.spot_ask_x100 > 0
        },
        s.bid_id == 0 && s.ask_id == 0 && 0 < s.spot_bid_x100 < s.spot_ask_x100
            ==> s.quotable_spec(),
{
}

/// A ticker of the traded book sets price and size of each side that it holds, and
/// leaves the other side and everything else alone.
pub proof fn law_spot_ticker_sets_its_sides(s: State, bt: BookTickerView, a: SpotAmounts)
    ensures
        ({
            let t = s.with_spot_book(bt, a);
            let (buy, sell) = (sides::of(s, Side::Buy), sides::of(s, Side::Sell));
            &&& sides::common(t) == sides::common(s)
            &&& bt.bid_px > 0 ==> sides::of(t, Side::Buy) == (SideView {
                best_x100: a.bid_x100,
                best_sz_e6: a.bid_sz_e6,
                ..buy
            })
            &&& bt.bid_px <= 0 ==> sides::of(t, Side::Buy) == buy
            &&& bt.ask_px > 0 ==> sides::of(t, Side::Sell) == (SideView {
                best_x100: a.ask_x100,
                best_sz_e6: a.ask_sz_e6,
                ..sell
            })
            &&& bt.ask_px <= 0 ==> sides::of(t, Side::Sell) == sell
        }),
        s.with_spot_book(bt, a).with_spot_book(bt, a) == s.with_spot_book(bt, a),
{
}

/// A ticker of the anchor book sets the prices and the sizes that it holds, each by
/// itself, and leaves everything else alone.
pub proof fn law_anchor_ticker_sets_its_sides(s: State, bt: BookTickerView, a: AnchorAmounts)
    ensures
        ({
            let t = s.with_usdt_book(bt, a);
            &&& bt.bid_px > 0 ==> t.usdt_bid_x100 == a.bid_x100
            &&& bt.bid_px <= 0 ==> t.usdt_bid_x100 == s.usdt_bid_x100
            &&& bt.ask_px > 0 ==> t.usdt_ask_x100 == a.ask_x100
            &&& bt.ask_px <= 0 ==> t.usdt_ask_x100 == s.usdt_ask_x100
            &&& bt.bid_qty > 0 ==> t.usdt_bid_sz_e6 == a.bid_sz_e6
            &&& bt.bid_qty <= 0 ==> t.usdt_bid_sz_e6 == s.usdt_bid_sz_e6
            &&& bt.ask_qty > 0 ==> t.usdt_ask_sz_e6 == a.ask_sz_e6
            &&& bt.ask_qty <= 0 ==> t.usdt_ask_sz_e6 == s.usdt_ask_sz_e6
            &&& (State {
                usdt_bid_x100: s.usdt_bid_x100,
                usdt_ask_x100: s.usdt_ask_x100,
                usdt_bid_sz_e6: s.usdt_bid_sz_e6,
                usdt_ask_sz_e6: s.usdt_ask_sz_e6,
                ..t
            }) == s
        }),
{
}

/// Twice the middle of two prices is their sum, but for its last half, which goes
/// towards zero; the middle lies between them, and their order does not matter.
pub proof fn law_midpoint(a: i64, b: i64)
    ensures
        a + b >= 0 ==> a + b - 1 <= 2 * books::midpoint(a, b) <= a + b,
        a + b <= 0 ==> a + b <= 2 * books::midpoint(a, b) <= a + b + 1,
        a <= b ==> a <= books::midpoint(a, b) <= b,
        books::midpoint(a, b) == books::midpoint(b, a),
        books::midpoint(a, a) == a,
{
}

/// An average starts where none was kept before, and is carried on from the last
/// value over the time since.
pub proof fn law_averages(last_us: u64, now_us: u64, prev: i64)
    requires
        last_us <= now_us,
    ensures
        books::ewma_step(last_us, now_us, prev) == EwmaStep::First <==> last_us == 0,
        last_us != 0 ==> (books::ewma_step(last_us, now_us, prev) matches EwmaStep::Blend {
            dt_us,
            prev: p,
        } && dt_us + last_us == now_us && p == prev),
{
}

/// The basis is carried on exactly where the four prices are known: then it is
/// stamped and counted, and nothing else changes.
pub proof fn law_basis_needs_both_books(s: State, now_us: u64)
    requires
        s.last_basis_ts_us <= now_us,
    ensures
        s.basis_step(now_us) == EwmaStep::NotReady <==> s.usdt_bid_x100 == 0 || s.usdt_ask_x100
            == 0 || s.spot_bid_x100 == 0 || s.spot_ask_x100 == 0,
        s.basis_step(now_us) == EwmaStep::NotReady ==> s.with_basis_step(now_us) == s,
        s.basis_step(now_us) != EwmaStep::NotReady ==> {
            let t = s.with_basis_step(now_us);
            &&& s.basis_step(now_us) == books::ewma_step(s.last_basis_ts_us, now_us, s.basis_x100)
            &&& t.last_basis_ts_us == now_us
            &&& s.basis_n < u64::MAX ==> t.basis_n == s.basis_n + 1
            &&& (State { last_basis_ts_us: s.last_basis_ts_us, basis_n: s.basis_n, ..t }) == s
        },
{
}

/// The average mid of the anchor is carried on exactly where both its prices are
/// known; its first value is the middle of them, and nothing else changes.
pub proof fn law_anchor_average_needs_its_book(s: State, now_us: u64)
    requires
        s.last_usdt_ewma_ts_us <= now_us,
    ensures
        s.usdt_ewma_step(now_us) == EwmaStep::NotReady <==> s.usdt_bid_x100 == 0 || s.usdt_ask_x100
            == 0,
        s.usdt_ewma_step(now_us) == EwmaStep::NotReady ==> s.with_usdt_ewma_step(now_us) == s,
        s.usdt_ewma_step(now_us) != EwmaStep::NotReady ==> {
            let t = s.with_usdt_ewma_step(now_us);
            &&& s.usdt_ewma_step(now_us) == books::ewma_step(
                s.last_usdt_ewma_ts_us,
                now_us,
                s.usdt_mid_ewma_x100,
            )
            &&& t.last_usdt_ewma_ts_us == now_us
            &&& s.last_usdt_ewma_ts_us == 0 ==> t.usdt_mid_ewma_x100 == books::midpoint(
                s.usdt_bid_x100,
                s.usdt_ask_x100,
            )
            &&& s.last_usdt_ewma_ts_us != 0 ==> t.usdt_mid_ewma_x100 == s.usdt_mid_ewma_x100
            &&& (State {
                last_usdt_ewma_ts_us: s.last_usdt_ewma_ts_us,
                usdt_mid_ewma_x100: s.usdt_mid_ewma_x100,
                ..t
            }) == s
        },
{
}

} // verus!
