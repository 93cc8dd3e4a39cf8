//! What is decoded of a frame does not depend on what comes behind it, and nothing is
//! decoded of one that ends too early.
use crate::sbe::decode;
use crate::sbe::frame::FrameHeader;
use crate::sbe::market;
use crate::sbe::messages::{BookTickerView, ExecutionReportView, IncrementalTrade};
use crate::sbe::wire;
use vstd::prelude::*;

verus! {

/// A byte is read alike whatever comes behind it.
pub broadcast proof fn lemma_byte_stays(s: Seq<u8>, more: Seq<u8>, p: int)
    requires
        0 <= p < s.len(),
    ensures
        #[trigger] (s + more)[p] == s[p],
        wire::i8_at(s + more, p) == wire::i8_at(s, p),
{
}

/// A number of two bytes, likewise.
pub broadcast proof fn lemma_u16_stays(s: Seq<u8>, more: Seq<u8>, p: int)
    requires
        0 <= p,
        p + 2 <= s.len(),
    ensures
        #[trigger] wire::u16_at(s + more, p) == wire::u16_at(s, p),
{
    assert((s + more).subrange(p, p + 2) =~= s.subrange(p, p + 2));
}

/// A number of four bytes, likewise.
pub broadcast proof fn lemma_u32_stays(s: Seq<u8>, more: Seq<u8>, p: int)
    requires
        0 <= p,
        p + 4 <= s.len(),
    ensures
        #[trigger] wire::u32_at(s + more, p) == wire::u32_at(s, p),
{
    assert((s + more).subrange(p, p + 4) =~= s.subrange(p, p + 4));
}

/// A number of eight bytes, likewise.
pub broadcast proof fn lemma_u64_stays(s: Seq<u8>, more: Seq<u8>, p: int)
    requires
        0 <= p,
        p + 8 <= s.len(),
    ensures
        #[trigger] wire::u64_at(s + more, p) == wire::u64_at(s, p),
{
    assert((s + more).subrange(p, p + 8) =~= s.subrange(p, p + 8));
}

/// A string that is complete, likewise.
pub broadcast proof fn lemma_var8_stays(s: Seq<u8>, more: Seq<u8>, p: int)
    requires
        wire::var8_at(s, p) is Some,
    ensures
        #[trigger] wire::var8_at(s + more, p) == wire::var8_at(s, p),
{
    let n = s[p] as int;
    assert((s + more).subrange(p + 1, p + 1 + n) =~= s.subrange(p + 1, p + 1 + n));
}

/// A longer string that is complete, likewise.
pub broadcast proof fn lemma_var16_stays(s: Seq<u8>, more: Seq<u8>, p: int)
    requires
        wire::var16_at(s, p) is Some,
    ensures
        #[trigger] wire::var16_at(s + more, p) == wire::var16_at(s, p),
{
    lemma_u16_stays(s, more, p);
    let n = wire::u16_at(s, p) as int;
    assert((s + more).subrange(p + 2, p + 2 + n) =~= s.subrange(p + 2, p + 2 + n));
}

pub broadcast group group_stays {
    lemma_byte_stays,
    lemma_u16_stays,
    lemma_u32_stays,
    lemma_u64_stays,
    lemma_var8_stays,
    lemma_var16_stays,
}

/// A message that was decoded stays what it is whatever comes behind its frame.
pub proof fn law_what_is_decoded_stays(hdr: FrameHeader, s: Seq<u8>, more: Seq<u8>)
    ensures
        decode::logon_ack_spec(hdr, s) is Some ==> decode::logon_ack_spec(hdr, s + more)
            == decode::logon_ack_spec(hdr, s),
        decode::execution_report_ack_spec(hdr, s) is Some ==> decode::execution_report_ack_spec(
            hdr,
            s + more,
        ) == decode::execution_report_ack_spec(hdr, s),
        decode::order_cancel_reject_spec(hdr, s) is Some ==> decode::order_cancel_reject_spec(
            hdr,
            s + more,
        ) == decode::order_cancel_reject_spec(hdr, s),
        decode::reject_spec(hdr, s) is Some ==> decode::reject_spec(hdr, s + more)
            == decode::reject_spec(hdr, s),
        decode::md_request_reject_spec(hdr, s) is Some ==> decode::md_request_reject_spec(
            hdr,
            s + more,
        ) == decode::md_request_reject_spec(hdr, s),
        decode::test_request_spec(hdr, s) is Some ==> decode::test_request_spec(hdr, s + more)
            == decode::test_request_spec(hdr, s),
        decode::logout_spec(hdr, s) is Some ==> decode::logout_spec(hdr, s + more)
            == decode::logout_spec(hdr, s),
{
    broadcast use group_stays;

}

/// Nothing is decoded of a frame whose fixed fields are not all there, nor of one that
/// ends where its strings would start.
pub proof fn law_nothing_is_decoded_of_short_frames(hdr: FrameHeader, s: Seq<u8>)
    ensures
        s.len() < 307 || s.len() < hdr.block_length + 32 ==> decode::execution_report_spec(hdr, s)
            is None,
        s.len() < 32 || s.len() <= hdr.block_length + 26 ==> decode::logon_ack_spec(hdr, s) is None,
        s.len() < 57 || s.len() < hdr.block_length + 28 ==> decode::execution_report_ack_spec(
            hdr,
            s,
        ) is None,
        s.len() < 48 || s.len() < hdr.block_length + 30 ==> decode::order_cancel_reject_spec(
            hdr,
            s,
        ) is None,
        s.len() < 39 || s.len() < hdr.block_length + 29 ==> decode::reject_spec(hdr, s) is None,
        s.len() < 31 || s.len() < hdr.block_length + 29 ==> decode::md_request_reject_spec(hdr, s)
            is None,
        s.len() <= hdr.block_length + 26 ==> decode::test_request_spec(hdr, s) is None,
        s.len() < hdr.block_length + 28 ==> decode::logout_spec(hdr, s) is None,
        s.len() < 36 || s.len() < hdr.block_length + 30 ==> market::book_spec(hdr, s, false) is None,
        s.len() < 36 || s.len() < hdr.block_length + 32 ==> market::book_spec(hdr, s, true) is None,
        s.len() < 36 || s.len() < hdr.block_length + 57 ==> market::incremental_trade_spec(hdr, s)
            is None,
{
    if let Some(b) = market::book_spec(hdr, s, false) {
        let p = hdr.after_root_spec();
        let (block, num) = (s[p] as int, s[p + 1] as int);
        assert(num * block >= 0) by (nonlinear_arith)
            requires
                num >= 0,
                block >= 0,
        ;
    }
    if let Some(b) = market::book_spec(hdr, s, true) {
        let p = hdr.after_root_spec();
        let (block, num) = (s[p] as int, wire::u16_at(s, p + 1) as int);
        assert(num * block >= 0) by (nonlinear_arith)
            requires
                num >= 0,
                block >= 0,
        ;
    }
    if let Some(t) = market::incremental_trade_spec(hdr, s) {
        let (k, block) = (market::trade_num(hdr, s) - 1, market::trade_block(hdr, s));
        assert(k * block >= 0) by (nonlinear_arith)
            requires
                k >= 0,
                block >= 0,
        ;
    }
    if let Some(m) = decode::execution_report_spec(hdr, s) {
        let p = hdr.after_root_spec();
        lemma_fees_go_on(s, p + 3, s[p] as int, wire::u16_at(s, p + 1) as int);
    }
}

/// What stands behind the fees stands no earlier than the fees.
proof fn lemma_fees_go_on(s: Seq<u8>, p: int, block: int, num: int)
    requires
        block >= 0,
    ensures
        decode::after_misc_fees(s, p, block, num) matches Some(q) ==> q >= p,
    decreases num,
{
    if num > 0 {
        if let Some((_, q)) = wire::var8_at(s, p + block) {
            lemma_fees_go_on(s, q, block, num - 1);
        }
    }
}

/// Fees that are complete end at the same place whatever comes behind them.
proof fn lemma_fees_stay(s: Seq<u8>, more: Seq<u8>, p: int, block: int, num: int)
    requires
        decode::after_misc_fees(s, p, block, num) is Some,
    ensures
        decode::after_misc_fees(s + more, p, block, num) == decode::after_misc_fees(
            s,
            p,
            block,
            num,
        ),
    decreases num,
{
    broadcast use group_stays;

    if num > 0 {
        if let Some((_, q)) = wire::var8_at(s, p + block) {
            lemma_fees_stay(s, more, q, block, num - 1);
        }
    }
}

/// An ExecutionReport that was decoded stays what it is whatever comes behind it, but for
/// the text of an error, which may be missing where the frame ends early.
pub proof fn law_report_stays(hdr: FrameHeader, s: Seq<u8>, more: Seq<u8>)
    requires
        decode::execution_report_spec(hdr, s) is Some,
    ensures
        decode::execution_report_spec(hdr, s + more) matches Some(m) && m == (
        ExecutionReportView {
            error_text: m.error_text,
            ..decode::execution_report_spec(hdr, s)->0
        }),
{
    broadcast use group_stays;

    let p = hdr.after_root_spec();
    lemma_fees_stay(s, more, p + 3, s[p] as int, wire::u16_at(s, p + 1) as int);
}

/// Where the levels of a side end, and the first of them, over the offsets: `p` is that
/// of the side, `n` the number of its levels and `first` the offset of the first.
pub open spec fn side_end(s: Seq<u8>, p: int, n: int, first: int) -> int {
    first + n * s[p]
}

/// The levels of a side are all there.
pub open spec fn side_there(s: Seq<u8>, p: int, n: int, first: int) -> bool {
    n > 0 ==> side_end(s, p, n, first) - s[p] + 16 <= s.len()
}

/// The number of levels of a side in one byte, or in two.
pub open spec fn levels_at(s: Seq<u8>, p: int, wide: bool) -> int {
    if wide {
        s[p + 1] + 256 * s[p + 2]
    } else {
        s[p + 1] as int
    }
}

proof fn lemma_levels_at(s: Seq<u8>, p: int)
    requires
        0 <= p,
        p + 3 <= s.len(),
    ensures
        wire::u16_at(s, p + 1) == s[p + 1] + 256 * s[p + 2],
{
    let x = s.subrange(p + 1, p + 3);
    assert(x[0] == s[p + 1] && x[1] == s[p + 2]);
    reveal_with_fuel(wire::le_value, 3);
}

/// A book decodes exactly where its fixed fields and both its sides are there, whatever
/// the length of a level; its bid and its ask are the first levels of the two sides, one
/// behind the other, and zero where a side has none.
pub proof fn law_book_offsets(hdr: FrameHeader, s: Seq<u8>, wide: bool)
    ensures
        ({
            let w = if wide {
                3int
            } else {
                2
            };
            let p = 26 + hdr.block_length;
            let n = levels_at(s, p, wide);
            let q = side_end(s, p, n, p + w);
            let m = levels_at(s, q, wide);
            &&& market::book_spec(hdr, s, wide) is Some <==> s.len() >= 36 && p + w <= s.len()
                && side_there(s, p, n, p + w) && q + w <= s.len() && side_there(s, q, m, q + w)
            &&& market::book_spec(hdr, s, wide) matches Some(b) ==> {
                &&& n > 0 ==> b.bid_px == wire::i64_at(s, p + w) && b.bid_qty == wire::i64_at(
                    s,
                    p + w + 8,
                )
                &&& n == 0 ==> b.bid_px == 0 && b.bid_qty == 0
                &&& m > 0 ==> b.ask_px == wire::i64_at(s, q + w) && b.ask_qty == wire::i64_at(
                    s,
                    q + w + 8,
                )
                &&& m == 0 ==> b.ask_px == 0 && b.ask_qty == 0
                &&& b.last_book_update_id == wire::i64_at(s, 26)
                &&& b.price_exponent == wire::i8_at(s, 34)
                &&& b.qty_exponent == wire::i8_at(s, 35)
            }
        }),
{
    let w = if wide {
        3int
    } else {
        2
    };
    let p = 26 + hdr.block_length;
    let n = levels_at(s, p, wide);
    let q = side_end(s, p, n, p + w);
    let m = levels_at(s, q, wide);
    if p + w <= s.len() {
        let b = s[p] as int;
        assert(n * b >= 0) by (nonlinear_arith)
            requires
                n >= 0,
                b >= 0,
        ;
        assert((n - 1) * b == n * b - b) by (nonlinear_arith);
        if wide {
            lemma_levels_at(s, p);
        }
        if q + w <= s.len() {
            let c = s[q] as int;
            assert((m - 1) * c == m * c - c) by (nonlinear_arith);
            if wide {
                lemma_levels_at(s, q);
            }
        }
    }
}

/// A book that was decoded stays what it is whatever comes behind it, but for the symbol,
/// which may be missing where the frame ends early.
pub proof fn law_book_stays(hdr: FrameHeader, s: Seq<u8>, more: Seq<u8>, wide: bool)
    requires
        market::book_spec(hdr, s, wide) is Some,
    ensures
        market::book_spec(hdr, s + more, wide) matches Some(b) && b == (BookTickerView {
            symbol: b.symbol,
            ..market::book_spec(hdr, s, wide)->0
        }),
{
    broadcast use group_stays;

    let p = hdr.after_root_spec();
    let l = market::side_levels(s, p, wide)->0;
    let (first, num) = if wide {
        (p + 3, wire::u16_at(s, p + 1) as int)
    } else {
        (p + 2, s[p + 1] as int)
    };
    let block = s[p] as int;
    assert(num * block >= 0) by (nonlinear_arith)
        requires
            num >= 0,
            block >= 0,
    ;
    if num > 0 {
        assert((num - 1) * block >= 0) by (nonlinear_arith)
            requires
                num > 0,
                block >= 0,
        ;
    }
    let q = l.next;
    let (first2, num2) = if wide {
        (q + 3, wire::u16_at(s, q + 1) as int)
    } else {
        (q + 2, s[q + 1] as int)
    };
    let block2 = s[q] as int;
    if num2 > 0 {
        assert((num2 - 1) * block2 >= 0) by (nonlinear_arith)
            requires
                num2 > 0,
                block2 >= 0,
        ;
    }
    assert(market::side_levels(s + more, p, wide) == Some(l));
    assert(market::side_levels(s + more, q, wide) == market::side_levels(s, q, wide));
}

/// The trades of a frame are its entries over the offsets, from the first on, as many as
/// there are or as can be read whole; the single trade is the last of them, and there is
/// one exactly where all entries, and at least one, can be read.
pub proof fn law_trade_offsets(
    hdr: FrameHeader,
    s: Seq<u8>,
    all: Seq<IncrementalTrade>,
    k: int,
)
    requires
        market::incremental_trades(hdr, s, all),
    ensures
        ({
            let p = 26 + hdr.block_length;
            let there = s.len() >= 36 && s.len() >= p + 6;
            let block = wire::u16_at(s, p) as int;
            let num = wire::u32_at(s, p + 2) as int;
            &&& !there ==> all.len() == 0 && market::incremental_trade_spec(hdr, s) is None
            &&& there ==> all.len() <= num
            &&& there && 0 <= k < num ==> (k < all.len() <==> p + 6 + k * block + 25 <= s.len())
            &&& 0 <= k < all.len() ==> {
                let e = p + 6 + k * block;
                &&& all[k].px == wire::i64_at(s, e + 8)
                &&& all[k].qty == wire::i64_at(s, e + 16)
                &&& s[e + 24] == 255 ==> all[k].aggressor_side == 0
                &&& s[e + 24] != 255 ==> all[k].aggressor_side == s[e + 24]
                &&& all[k].transact_time == wire::i64_at(s, 26)
                &&& all[k].price_exponent == wire::i8_at(s, 34)
                &&& all[k].qty_exponent == wire::i8_at(s, 35)
            }
            &&& market::incremental_trade_spec(hdr, s) is Some <==> there && num > 0 && all.len()
                == num
            &&& market::incremental_trade_spec(hdr, s) matches Some(t) ==> t == all.last()
        }),
{
    let p = 26 + hdr.block_length;
    let block = wire::u16_at(s, p) as int;
    let num = wire::u32_at(s, p + 2) as int;
    if market::trade_group_there(hdr, s) {
        if 0 <= k < all.len() {
            market::lemma_trade_fits_before(hdr, s, k, all.len() - 1);
        }
        if all.len() <= k < num && market::trade_fits(hdr, s, k) {
            market::lemma_trade_fits_before(hdr, s, all.len() as int, k);
        }
        if num > 0 && all.len() < num && market::trade_fits(hdr, s, num - 1) {
            market::lemma_trade_fits_before(hdr, s, all.len() as int, num - 1);
        }
    }
}

/// What is read before `at`, and what is read behind it, does not depend on the byte
/// there.
proof fn lemma_around(s: Seq<u8>, at: int, c: u8, p: int)
    requires
        0 <= at < s.len(),
    ensures
        ({
            let t = s.update(at, c);
            &&& wire::var8_at(s, p) matches Some((_, q)) ==> p + 1 <= q && (q <= at || p > at
                ==> wire::var8_at(t, p) == wire::var8_at(s, p))
            &&& p > at && wire::var8_at(s, p) is None ==> wire::var8_at(t, p) is None
            &&& p > at ==> wire::var16_at(t, p) == wire::var16_at(s, p)
        }),
{
    let t = s.update(at, c);
    if 0 <= p < s.len() && p != at {
        let n = s[p] as int;
        if p + 1 + n <= s.len() && (p + 1 + n <= at || p > at) {
            assert(t.subrange(p + 1, p + 1 + n) =~= s.subrange(p + 1, p + 1 + n));
        }
    }
    if p > at && p + 2 <= s.len() {
        assert(t.subrange(p, p + 2) =~= s.subrange(p, p + 2));
        let n = wire::u16_at(s, p) as int;
        if p + 2 + n <= s.len() {
            assert(t.subrange(p + 2, p + 2 + n) =~= s.subrange(p + 2, p + 2 + n));
        }
    }
}

/// A string that may be missing and is cut off counts as an empty one: the strings of a
/// report are those of the same bytes with its length set to zero.
pub proof fn law_cut_string_counts_as_empty(s: Seq<u8>, p: int, p1: int, p2: int, p3: int)
    requires
        wire::var8_at(s, p) matches Some((_, q)) && q == p1,
        wire::var8_at(s, p1) matches Some((_, q)) && q == p2,
        wire::var8_at(s, p2) matches Some((_, q)) && q == p3,
        p3 < s.len(),
    ensures
        p3 + 1 + s[p3] > s.len() ==> decode::execution_report_strings(s, p)
            == decode::execution_report_strings(s.update(p3, 0), p),
        p3 + 1 + s[p3] < s.len() ==> ({
            let p4 = p3 + 1 + s[p3];
            p4 + 1 + s[p4] > s.len() ==> decode::execution_report_strings(s, p)
                == decode::execution_report_strings(s.update(p4, 0), p)
        }),
{
    if p3 + 1 + s[p3] > s.len() {
        let t = s.update(p3, 0);
        lemma_around(s, p3, 0, p);
        lemma_around(s, p3, 0, p1);
        lemma_around(s, p3, 0, p2);
        lemma_around(s, p3, 0, p3 + 1);
        assert(wire::var8_at(t, p3) matches Some((_, q)) && q == p3 + 1);
        if let Some((_, q)) = wire::var8_at(s, p3 + 1) {
            lemma_around(s, p3, 0, q);
        }
        lemma_around(s, p3, 0, p3 + 2);
    }
    if p3 + 1 + s[p3] < s.len() {
        let p4 = p3 + 1 + s[p3];
        if p4 + 1 + s[p4] > s.len() {
            let t = s.update(p4, 0);
            lemma_around(s, p4, 0, p);
            lemma_around(s, p4, 0, p1);
            lemma_around(s, p4, 0, p2);
            lemma_around(s, p4, 0, p3);
            lemma_around(s, p4, 0, p4 + 1);
            assert(wire::var8_at(t, p4) matches Some((_, q)) && q == p4 + 1);
        }
    }
}

/// A report that ends behind its symbol has no error text.
pub proof fn law_no_text_behind_the_symbol(s: Seq<u8>, p: int, p1: int, p2: int)
    requires
        wire::var8_at(s, p) matches Some((_, q)) && q == p1,
        wire::var8_at(s, p1) matches Some((_, q)) && q == p2,
        wire::var8_at(s, p2) matches Some((_, q)) && q == s.len(),
    ensures
        decode::execution_report_strings(s, p) matches Some(v) && v.error_text.len() == 0,
{
}

} // verus!
