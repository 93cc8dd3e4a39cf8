//! What the feeds do to the books and their averages.
use crate::maker::books;
use crate::maker::books::{AnchorAmounts, EwmaStep, SpotAmounts};
use crate::maker::cids::Side;
use crate::maker::sides;
use crate::maker::state::State;
use crate::sbe::messages::{BookTickerView, IncrementalTrade};
use vstd::prelude::*;

verus! {

/// A trade counts for the side of its taker: for the buys where that is the character
/// 1, for the sells where it is 2; without a quantity or a known side it does not count.
pub proof fn law_trades_count_for_their_taker(t: IncrementalTrade)
    ensures
        books::taker_side(t) == Some(Side::Buy) <==> t.qty > 0 && t.aggressor_side == 0x31,
        books::taker_side(t) == Some(Side::Sell) <==> t.qty > 0 && t.aggressor_side == 0x32,
        books::taker_side(t) is None <==> t.qty <= 0 || t.aggressor_side != 0x31
            && t.aggressor_side != 0x32,
{
}

/// The buyer of a trade made the price exactly where its taker sold; this is told of
/// every trade with a price.
pub proof fn law_maker_is_not_the_taker(t: IncrementalTrade)
    ensures
        books::taker_sold(t) is Some <==> t.px > 0,
        t.px > 0 && t.qty > 0 ==> (books::taker_sold(t) == Some(true) <==> books::taker_side(t)
            == Some(Side::Sell)),
        t.px > 0 && t.aggressor_side == 0x31 ==> books::taker_sold(t) == Some(false),
        t.px > 0 && t.aggressor_side == 0x32 ==> books::taker_sold(t) == Some(true),
{
}

/// A trade counts for one side whatever its price, and its maker is told whatever its
/// quantity.
pub proof fn law_trades_ignore_the_rest(t: IncrementalTrade, u: IncrementalTrade)
    requires
        t.aggressor_side == u.aggressor_side,
    ensures
        (t.qty > 0) == (u.qty > 0) ==> books::taker_side(t) == books::taker_side(u),
        (t.px > 0) == (u.px > 0) ==> books::taker_sold(t) == books::taker_sold(u),
{
}

/// The middle of the shown book is known where both its sides are, and lies halfway
/// between them; without orders of ours it is the fair value.
pub proof fn law_shown_middle(s: State)
    ensures
        s.spot_mid_spec() is Some <==> s.spot_bid_x100 != 0 && s.spot_ask_x100 != 0,
        s.spot_mid_spec() matches Some(v) ==> v - s.spot_bid_x100 == s.spot_ask_x100,
        s.bid_id == 0 && s.ask_id == 0 ==> match (s.spot_mid_spec(), s.fair_value_spec()) {
            (Some(v), Some(w)) => v == w,
            (None, None) => true,
            _ => false,
        },
        s.fair_value_spec() matches Some(w) ==> (s.spot_mid_spec() matches Some(v) && v == w),
{
}

/// The volatility is sampled where both sides of the anchor book are above zero, halfway
/// between them.
pub proof fn law_sample(s: State)
    ensures
        s.sigma_sample_spec() is Some <==> s.usdt_bid_x100 > 0 && s.usdt_ask_x100 > 0,
        s.sigma_sample_spec() matches Some(v) ==> v - s.usdt_bid_x100 == s.usdt_ask_x100 && v > 1,
{
}

/// The book of the perpetual is the one that came last. Its average starts at the middle
/// of the first book and is not touched here afterwards; nothing else changes.
pub proof fn law_perpetual_book(s: State, bid_x100: i64, ask_x100: i64, now_us: u64)
    requires
        s.last_perp_ewma_ts_us <= now_us,
    ensures
        ({
            let t = s.with_perp_book(bid_x100, ask_x100, now_us);
            &&& t.perp_bid_x100 == bid_x100
            &&& t.perp_ask_x100 == ask_x100
            &&& t.last_perp_ewma_ts_us == now_us
            &&& s.last_perp_ewma_ts_us != 0 ==> t.perp_mid_ewma_x100 == s.perp_mid_ewma_x100
            &&& s.last_perp_ewma_ts_us == 0 && 0 <= bid_x100 <= ask_x100 ==> 2
                * t.perp_mid_ewma_x100 <= bid_x100 + ask_x100 <= 2 * t.perp_mid_ewma_x100 + 1
            &&& t == (State {
                perp_bid_x100: t.perp_bid_x100,
                perp_ask_x100: t.perp_ask_x100,
                last_perp_ewma_ts_us: t.last_perp_ewma_ts_us,
                perp_mid_ewma_x100: t.perp_mid_ewma_x100,
                ..s
            })
            &&& s.perp_ewma_step(now_us) == EwmaStep::First <==> s.last_perp_ewma_ts_us == 0
            &&& s.last_perp_ewma_ts_us != 0 ==> s.perp_ewma_step(now_us) == (EwmaStep::Blend {
                dt_us: (now_us - s.last_perp_ewma_ts_us) as u64,
                prev: s.perp_mid_ewma_x100,
            })
        }),
{
}

/// A trade that counts is noted with its time and nothing else; from then on the time
/// since the last one is known.
pub proof fn law_counted_trades(s: State, now_us: u64, later_us: u64)
    requires
        s.last_signed_qty_ts_us <= now_us <= later_us,
        now_us > 0,
    ensures
        ({
            let t = s.with_signed_qty_step(now_us);
            &&& t.signed_qty_age_spec(later_us) == Some((later_us - now_us) as u64)
            &&& t == (State { last_signed_qty_ts_us: t.last_signed_qty_ts_us, ..s })
            &&& s.signed_qty_age_spec(now_us) is None <==> s.last_signed_qty_ts_us == 0
            &&& s.signed_qty_step(now_us) == EwmaStep::First <==> s.last_signed_qty_ts_us == 0
            &&& s.signed_qty_age_spec(now_us) matches Some(age) ==> s.signed_qty_step(now_us) == (
            EwmaStep::Blend { dt_us: age, prev: s.signed_qty_e6 })
        }),
{
}

/// A message of the traded book is a change exactly where one of its prices is there and
/// is another than before. Sizes count either way; the basis is carried on only with a
/// change, and only where all four prices are known.
pub proof fn law_spot_message(s: State, bt: BookTickerView, a: SpotAmounts, now_us: u64)
    requires
        s.last_basis_ts_us <= now_us,
    ensures
        ({
            let (tick, t) = s.spot_ticked(bt, a, now_us);
            let known = t.spot_bid_x100 != 0 && t.spot_ask_x100 != 0 && s.usdt_bid_x100 != 0
                && s.usdt_ask_x100 != 0;
            &&& tick.changed <==> (bt.bid_px > 0 && a.bid_x100 != s.spot_bid_x100) || (bt.ask_px
                > 0 && a.ask_x100 != s.spot_ask_x100)
            &&& bt.bid_px > 0 ==> t.spot_bid_x100 == a.bid_x100 && t.spot_bid_sz_e6 == a.bid_sz_e6
            &&& bt.ask_px > 0 ==> t.spot_ask_x100 == a.ask_x100 && t.spot_ask_sz_e6 == a.ask_sz_e6
            &&& bt.bid_px <= 0 ==> t.spot_bid_x100 == s.spot_bid_x100 && t.spot_bid_sz_e6
                == s.spot_bid_sz_e6
            &&& bt.ask_px <= 0 ==> t.spot_ask_x100 == s.spot_ask_x100 && t.spot_ask_sz_e6
                == s.spot_ask_sz_e6
            &&& tick.basis != EwmaStep::NotReady <==> tick.changed && known
            &&& tick.ewma == EwmaStep::NotReady
            &&& tick.changed && known ==> t.last_basis_ts_us == now_us && t.basis_n
                == s.basis_n.wrapping_add(1)
            &&& !(tick.changed && known) ==> t.last_basis_ts_us == s.last_basis_ts_us && t.basis_n
                == s.basis_n
            &&& t == (State {
                spot_bid_x100: t.spot_bid_x100,
                spot_ask_x100: t.spot_ask_x100,
                spot_bid_sz_e6: t.spot_bid_sz_e6,
                spot_ask_sz_e6: t.spot_ask_sz_e6,
                last_basis_ts_us: t.last_basis_ts_us,
                basis_n: t.basis_n,
                ..s
            })
        }),
{
}

/// A message of the anchor book is a change exactly where one of its prices is there and
/// is another than before. Sizes count wherever they are there; the averages are carried
/// on only with a change: that of the book where both its prices are known, the basis
/// where all four are.
pub proof fn law_anchor_message(s: State, bt: BookTickerView, a: AnchorAmounts, now_us: u64)
    requires
        s.last_basis_ts_us <= now_us,
        s.last_usdt_ewma_ts_us <= now_us,
    ensures
        ({
            let (tick, t) = s.usdt_ticked(bt, a, now_us);
            let own = t.usdt_bid_x100 != 0 && t.usdt_ask_x100 != 0;
            let known = own && s.spot_bid_x100 != 0 && s.spot_ask_x100 != 0;
            &&& tick.changed <==> (bt.bid_px > 0 && a.bid_x100 != s.usdt_bid_x100) || (bt.ask_px
                > 0 && a.ask_x100 != s.usdt_ask_x100)
            &&& bt.bid_px > 0 ==> t.usdt_bid_x100 == a.bid_x100
            &&& bt.ask_px > 0 ==> t.usdt_ask_x100 == a.ask_x100
            &&& bt.bid_px <= 0 ==> t.usdt_bid_x100 == s.usdt_bid_x100
            &&& bt.ask_px <= 0 ==> t.usdt_ask_x100 == s.usdt_ask_x100
            &&& bt.bid_qty > 0 ==> t.usdt_bid_sz_e6 == a.bid_sz_e6
            &&& bt.ask_qty > 0 ==> t.usdt_ask_sz_e6 == a.ask_sz_e6
            &&& bt.bid_qty <= 0 ==> t.usdt_bid_sz_e6 == s.usdt_bid_sz_e6
            &&& bt.ask_qty <= 0 ==> t.usdt_ask_sz_e6 == s.usdt_ask_sz_e6
            &&& tick.ewma != EwmaStep::NotReady <==> tick.changed && own
            &&& tick.basis != EwmaStep::NotReady <==> tick.changed && known
            &&& tick.changed && own ==> t.last_usdt_ewma_ts_us == now_us
            &&& tick.ewma == EwmaStep::First ==> t.usdt_mid_ewma_x100 == books::midpoint(
                t.usdt_bid_x100,
                t.usdt_ask_x100,
            )
            &&& tick.ewma != EwmaStep::First ==> t.usdt_mid_ewma_x100 == s.usdt_mid_ewma_x100
            &&& tick.changed && known ==> t.last_basis_ts_us == now_us && t.basis_n
                == s.basis_n.wrapping_add(1)
            &&& !(tick.changed && known) ==> t.last_basis_ts_us == s.last_basis_ts_us && t.basis_n
                == s.basis_n
            &&& !(tick.changed && own) ==> t.last_usdt_ewma_ts_us == s.last_usdt_ewma_ts_us
            &&& sides::common(t) == (State {
                usdt_bid_x100: t.usdt_bid_x100,
                usdt_ask_x100: t.usdt_ask_x100,
                usdt_bid_sz_e6: t.usdt_bid_sz_e6,
                usdt_ask_sz_e6: t.usdt_ask_sz_e6,
                last_usdt_ewma_ts_us: t.last_usdt_ewma_ts_us,
                usdt_mid_ewma_x100: t.usdt_mid_ewma_x100,
                last_basis_ts_us: t.last_basis_ts_us,
                basis_n: t.basis_n,
                ..sides::common(s)
            })
            &&& sides::of(t, Side::Buy) == sides::of(s, Side::Buy)
            &&& sides::of(t, Side::Sell) == sides::of(s, Side::Sell)
        }),
{
}

} // verus!
