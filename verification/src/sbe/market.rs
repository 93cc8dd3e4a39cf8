//! Decoders of the market-data messages.
use crate::sbe::consts::{FRAME_PREFIX, NULL_U8};
use crate::sbe::frame::FrameHeader;
use crate::sbe::messages::{BookTicker, BookTickerView, IncrementalTrade};
use crate::sbe::reader::Reader;
use crate::sbe::wire;
use vstd::prelude::*;
use vstd::slice::slice_to_vec;

verus! {

/// Bytes of a price level that are read: price and size.
pub const LEVEL_LEN: usize = 16;

/// Bytes of a trade that are read: id, price, size and aggressor side.
pub const TRADE_LEN: usize = 25;

/// Whether each of `num` group entries, of which the first starts at `p` and
/// each next one `block` bytes further on, has `len` bytes left to read.
pub open spec fn entries_fit(s: Seq<u8>, p: int, block: int, num: int, len: int) -> bool {
    num == 0 || p + (num - 1) * block + len <= s.len()
}

/// One side of a book: the first of the levels, or zeros where there is none.
pub struct SideLevels {
    pub px: i64,
    pub qty: i64,
    /// Offset behind the group.
    pub next: int,
}

/// The levels of one side from `p` on; `wide` says that the number of entries
/// takes two bytes.
pub open spec fn side_levels(s: Seq<u8>, p: int, wide: bool) -> Option<SideLevels> {
    let first = if wide {
        p + 3
    } else {
        p + 2
    };
    if first > s.len() {
        None
    } else {
        let block = s[p] as int;
        let num = if wide {
            wire::u16_at(s, p + 1) as int
        } else {
            s[p + 1] as int
        };
        if !entries_fit(s, first, block, num, LEVEL_LEN as int) {
            None
        } else {
            Some(
                SideLevels {
                    px: if num == 0 {
                        0
                    } else {
                        wire::i64_at(s, first)
                    },
                    qty: if num == 0 {
                        0
                    } else {
                        wire::i64_at(s, first + 8)
                    },
                    next: first + num * block,
                },
            )
        }
    }
}

/// What a top-of-book frame holds: LastBookUpdateID i64, PriceExponent and
/// QtyExponent; then bids, asks and, if it is there, Symbol.
pub open spec fn book_spec(hdr: FrameHeader, s: Seq<u8>, wide: bool) -> Option<BookTickerView> {
    let r = FRAME_PREFIX as int;
    if r + 10 > s.len() {
        None
    } else {
        match side_levels(s, hdr.after_root_spec(), wide) {
            None => None,
            Some(bids) => match side_levels(s, bids.next, wide) {
                None => None,
                Some(asks) => Some(
                    BookTickerView {
                        last_book_update_id: wire::i64_at(s, r),
                        price_exponent: wire::i8_at(s, r + 8),
                        qty_exponent: wire::i8_at(s, r + 9),
                        bid_px: bids.px,
                        bid_qty: bids.qty,
                        ask_px: asks.px,
                        ask_qty: asks.qty,
                        symbol: match wire::var8_at(s, asks.next) {
                            Some((symbol, _)) => symbol,
                            None => Seq::empty(),
                        },
                    },
                ),
            },
        }
    }
}

/// Reads the levels of one side and moves behind them.
#[verifier::loop_isolation(false)]
fn read_side(g: &mut Reader, wide: bool) -> (res: Option<(i64, i64)>)
    ensures
        final(g).buf == old(g).buf,
        match res {
            Some((px, qty)) => {
                &&& side_levels(old(g).buf@, old(g).pos as int, wide) matches Some(l)
                &&& l.px == px && l.qty == qty
                &&& final(g).pos == l.next || (l.next > usize::MAX && final(g).pos == usize::MAX)
            },
            None => side_levels(old(g).buf@, old(g).pos as int, wide) is None,
        },
{
    let block: usize = g.u8()? as usize;
    let num: usize = if wide {
        g.u16()? as usize
    } else {
        g.u8()? as usize
    };
    let mut px: i64 = 0;
    let mut qty: i64 = 0;
    let mut i: usize = 0;
    let ghost first = g.pos as int;
    let ghost s = g.buf@;
    let ghost b = block as int;
    let ghost n = num as int;
    assert(s.len() <= usize::MAX) by {
        let _ = g.buf.len();
    }
    while i < num
        invariant
            i <= num,
            g.buf == old(g).buf,
            g.pos == first + i * b || (first + i * b > usize::MAX && g.pos == usize::MAX),
            i > 0 ==> first + (i - 1) * b + LEVEL_LEN <= s.len(),
            px == if i == 0 {
                0
            } else {
                wire::i64_at(s, first)
            },
            qty == if i == 0 {
                0
            } else {
                wire::i64_at(s, first + 8)
            },
        decreases num - i,
    {
        let start: usize = g.pos;
        assert(i * b <= (n - 1) * b) by (nonlinear_arith)
            requires
                i <= n - 1,
                b >= 0,
        ;
        let level_px = g.i64()?;
        let level_qty = g.i64()?;
        if i == 0 {
            px = level_px;
            qty = level_qty;
        }
        assert((i + 1) * b == i * b + b) by (nonlinear_arith);
        // The declared block length rules, in case the schema grew.
        g.pos = start.saturating_add(block);
        i = i + 1;
    }
    Some((px, qty))
}

fn read_book(hdr: &FrameHeader, body: &[u8], wide: bool) -> (res: Option<BookTicker>)
    ensures
        match res {
            Some(b) => book_spec(*hdr, body@, wide) == Some(b@),
            None => book_spec(*hdr, body@, wide) is None,
        },
{
    let mut r = Reader::at(body, hdr.root_offset());
    let last_book_update_id = r.i64()?;
    let price_exponent = r.i8()?;
    let qty_exponent = r.i8()?;

    let mut g = Reader::at(body, hdr.after_root());
    assert(body@.len() <= usize::MAX) by {
        let _ = body.len();
    }
    let (bid_px, bid_qty) = read_side(&mut g, wide)?;
    let (ask_px, ask_qty) = read_side(&mut g, wide)?;
    let symbol: Vec<u8> = match g.var8() {
        Some(t) => slice_to_vec(t),
        None => Vec::new(),
    };
    Some(
        BookTicker {
            last_book_update_id,
            price_exponent,
            qty_exponent,
            bid_px,
            bid_qty,
            ask_px,
            ask_qty,
            symbol,
        },
    )
}

/// Decodes a MarketDataIncrementalBookTicker frame (template 206): the number
/// of entries of a side takes one byte.
pub fn decode_book_ticker(hdr: &FrameHeader, body: &[u8]) -> (res: Option<BookTicker>)
    ensures
        match res {
            Some(b) => book_spec(*hdr, body@, false) == Some(b@),
            None => book_spec(*hdr, body@, false) is None,
        },
{
    read_book(hdr, body, false)
}

/// Decodes a MarketDataSnapshot frame (template 204): the number of entries of
/// a side takes two bytes.
pub fn decode_snapshot(hdr: &FrameHeader, body: &[u8]) -> (res: Option<BookTicker>)
    ensures
        match res {
            Some(b) => book_spec(*hdr, body@, true) == Some(b@),
            None => book_spec(*hdr, body@, true) is None,
        },
{
    read_book(hdr, body, true)
}

/// The trade whose entry starts at `p`, in a frame with a root block.
pub open spec fn trade_at(s: Seq<u8>, p: int) -> IncrementalTrade {
    let r = FRAME_PREFIX as int;
    IncrementalTrade {
        transact_time: wire::i64_at(s, r),
        price_exponent: wire::i8_at(s, r + 8),
        qty_exponent: wire::i8_at(s, r + 9),
        px: wire::i64_at(s, p + 8),
        qty: wire::i64_at(s, p + 16),
        aggressor_side: if s[p + 24] == NULL_U8 {
            0
        } else {
            s[p + 24]
        },
    }
}

/// Whether a trade frame holds its root block (TransactTime i64, PriceExponent,
/// QtyExponent) and the header of the MDEntries group (u16 blockLength, u32
/// numInGroup).
pub open spec fn trade_group_there(hdr: FrameHeader, s: Seq<u8>) -> bool {
    FRAME_PREFIX + 10 <= s.len() && hdr.after_root_spec() + 6 <= s.len()
}

/// Block length of the MDEntries group.
pub open spec fn trade_block(hdr: FrameHeader, s: Seq<u8>) -> int {
    wire::u16_at(s, hdr.after_root_spec()) as int
}

/// Number of MDEntries.
pub open spec fn trade_num(hdr: FrameHeader, s: Seq<u8>) -> int {
    wire::u32_at(s, hdr.after_root_spec() + 2) as int
}

/// Offset of entry `k` of MDEntries.
pub open spec fn trade_offset(hdr: FrameHeader, s: Seq<u8>, k: int) -> int {
    hdr.after_root_spec() + 6 + k * trade_block(hdr, s)
}

/// Whether entry `k` of MDEntries can be read.
pub open spec fn trade_fits(hdr: FrameHeader, s: Seq<u8>, k: int) -> bool {
    trade_offset(hdr, s, k) + TRADE_LEN <= s.len()
}

/// The last trade of a frame, where there is one and every entry can be read.
pub open spec fn incremental_trade_spec(hdr: FrameHeader, s: Seq<u8>) -> Option<IncrementalTrade> {
    let last = trade_num(hdr, s) - 1;
    if trade_group_there(hdr, s) && last >= 0 && trade_fits(hdr, s, last) {
        Some(trade_at(s, trade_offset(hdr, s, last)))
    } else {
        None
    }
}

/// The first `n` trades of a frame.
pub open spec fn trades_upto(hdr: FrameHeader, s: Seq<u8>, n: nat) -> Seq<IncrementalTrade> {
    Seq::new(n, |k: int| trade_at(s, trade_offset(hdr, s, k)))
}

/// `ts` are the trades of a frame: all of its entries up to the first that
/// cannot be read.
pub open spec fn incremental_trades(
    hdr: FrameHeader,
    s: Seq<u8>,
    ts: Seq<IncrementalTrade>,
) -> bool {
    if !trade_group_there(hdr, s) {
        ts.len() == 0
    } else {
        &&& ts == trades_upto(hdr, s, ts.len())
        &&& ts.len() <= trade_num(hdr, s)
        &&& ts.len() > 0 ==> trade_fits(hdr, s, ts.len() - 1)
        &&& ts.len() < trade_num(hdr, s) ==> !trade_fits(hdr, s, ts.len() as int)
    }
}

/// The trades of a frame.
pub open spec fn all_trades(hdr: FrameHeader, s: Seq<u8>) -> Seq<IncrementalTrade> {
    choose|ts: Seq<IncrementalTrade>| incremental_trades(hdr, s, ts)
}

/// An entry that can be read has only such entries before it.
pub proof fn lemma_trade_fits_before(hdr: FrameHeader, s: Seq<u8>, j: int, k: int)
    requires
        0 <= j <= k,
        trade_fits(hdr, s, k),
    ensures
        trade_fits(hdr, s, j),
{
    let block = trade_block(hdr, s);
    assert(j * block <= k * block) by (nonlinear_arith)
        requires
            0 <= j <= k,
            block >= 0,
    ;
}

/// There is one list of trades that a frame holds.
pub proof fn lemma_incremental_trades_unique(
    hdr: FrameHeader,
    s: Seq<u8>,
    a: Seq<IncrementalTrade>,
    b: Seq<IncrementalTrade>,
)
    requires
        incremental_trades(hdr, s, a),
        incremental_trades(hdr, s, b),
    ensures
        a == b,
{
    if a.len() < b.len() {
        lemma_trade_fits_before(hdr, s, a.len() as int, b.len() - 1);
    } else if b.len() < a.len() {
        lemma_trade_fits_before(hdr, s, b.len() as int, a.len() - 1);
    }
    assert(a =~= b);
}

/// The single trade that is decoded of a frame is the last of all its trades;
/// where none is decoded, the frame has no entries or one that cannot be read.
pub proof fn law_single_trade_is_last_of_all(
    hdr: FrameHeader,
    s: Seq<u8>,
    all: Seq<IncrementalTrade>,
)
    requires
        incremental_trades(hdr, s, all),
    ensures
        match incremental_trade_spec(hdr, s) {
            Some(t) => all.len() == trade_num(hdr, s) && all.last() == t,
            None => all.len() == 0 || all.len() < trade_num(hdr, s),
        },
{
    if incremental_trade_spec(hdr, s) is Some && all.len() < trade_num(hdr, s) {
        lemma_trade_fits_before(hdr, s, all.len() as int, trade_num(hdr, s) - 1);
    }
}

/// Reads one entry of MDEntries: price, size and aggressor side.
fn read_trade(g: &mut Reader) -> (res: Option<(i64, i64, u8)>)
    ensures
        match res {
            Some((px, qty, side)) => {
                &&& old(g).has(TRADE_LEN as int)
                &&& old(g).advanced(*final(g), TRADE_LEN as int)
                &&& px == wire::i64_at(old(g).buf@, old(g).pos + 8)
                &&& qty == wire::i64_at(old(g).buf@, old(g).pos + 16)
                &&& side == if old(g).buf@[old(g).pos + 24] == NULL_U8 {
                    0
                } else {
                    old(g).buf@[old(g).pos + 24]
                }
            },
            None => !old(g).has(TRADE_LEN as int),
        },
{
    let _trade_id = g.i64()?;
    let px = g.i64()?;
    let qty = g.i64()?;
    let side = g.u8()?;
    Some(
        (
            px,
            qty,
            if side == NULL_U8 {
                0
            } else {
                side
            },
        ),
    )
}

/// Decodes a MarketDataIncrementalTrade frame (template 205) to its last entry.
pub fn decode_incremental_trade(hdr: &FrameHeader, body: &[u8]) -> (res: Option<IncrementalTrade>)
    ensures
        res == incremental_trade_spec(*hdr, body@),
{
    let mut r = Reader::at(body, hdr.root_offset());
    let transact_time = r.i64()?;
    let price_exponent = r.i8()?;
    let qty_exponent = r.i8()?;

    let mut g = Reader::at(body, hdr.after_root());
    let block: usize = g.u16()? as usize;
    let num: u32 = g.u32()?;
    if num == 0 {
        return None;
    }
    let mut last: (i64, i64, u8) = (0, 0, 0);
    let mut i: u32 = 0;
    let ghost s = body@;
    let ghost b = block as int;
    assert(s.len() <= usize::MAX) by {
        let _ = body.len();
    }
    assert(trade_offset(*hdr, s, 0) == hdr.after_root_spec() + 6);
    while i < num
        invariant
            i <= num,
            num > 0,
            s == body@,
            g.buf@ == s,
            s.len() <= usize::MAX,
            b == block,
            b == trade_block(*hdr, s),
            num == trade_num(*hdr, s),
            trade_group_there(*hdr, s),
            g.pos == trade_offset(*hdr, s, i as int) || (trade_offset(*hdr, s, i as int)
                > usize::MAX && g.pos == usize::MAX),
            i > 0 ==> {
                &&& trade_fits(*hdr, s, i - 1)
                &&& last.0 == trade_at(s, trade_offset(*hdr, s, i - 1)).px
                &&& last.1 == trade_at(s, trade_offset(*hdr, s, i - 1)).qty
                &&& last.2 == trade_at(s, trade_offset(*hdr, s, i - 1)).aggressor_side
            },
        decreases num - i,
    {
        let start: usize = g.pos;
        proof {
            if trade_fits(*hdr, s, num - 1) {
                lemma_trade_fits_before(*hdr, s, i as int, num - 1);
            }
            assert((i + 1) * b == i * b + b) by (nonlinear_arith);
        }
        last = read_trade(&mut g)?;
        g.pos = start.saturating_add(block);
        i = i + 1;
    }
    Some(
        IncrementalTrade {
            transact_time,
            price_exponent,
            qty_exponent,
            px: last.0,
            qty: last.1,
            aggressor_side: last.2,
        },
    )
}

/// Decodes a MarketDataIncrementalTrade frame (template 205) to every entry.
pub fn decode_incremental_trade_all(hdr: &FrameHeader, body: &[u8]) -> (out: Vec<IncrementalTrade>)
    ensures
        incremental_trades(*hdr, body@, out@),
        out@ == all_trades(*hdr, body@),
{
    let out = read_trades(hdr, body);
    proof {
        lemma_incremental_trades_unique(*hdr, body@, out@, all_trades(*hdr, body@));
    }
    out
}

fn read_trades(hdr: &FrameHeader, body: &[u8]) -> (out: Vec<IncrementalTrade>)
    ensures
        incremental_trades(*hdr, body@, out@),
{
    let mut out: Vec<IncrementalTrade> = Vec::new();
    let mut r = Reader::at(body, hdr.root_offset());
    let (transact_time, price_exponent, qty_exponent) = match (r.i64(), r.i8(), r.i8()) {
        (Some(t), Some(p), Some(q)) => (t, p, q),
        _ => return out,
    };

    let mut g = Reader::at(body, hdr.after_root());
    let (block, num) = match (g.u16(), g.u32()) {
        (Some(b), Some(n)) => (b as usize, n),
        _ => return out,
    };
    let mut i: u32 = 0;
    let ghost s = body@;
    let ghost b = block as int;
    assert(s.len() <= usize::MAX) by {
        let _ = body.len();
    }
    assert(trade_offset(*hdr, s, 0) == hdr.after_root_spec() + 6);
    assert(out@ =~= trades_upto(*hdr, s, 0));
    while i < num
        invariant
            i <= num,
            s == body@,
            g.buf@ == s,
            s.len() <= usize::MAX,
            b == block,
            b == trade_block(*hdr, s),
            num == trade_num(*hdr, s),
            trade_group_there(*hdr, s),
            transact_time == wire::i64_at(s, FRAME_PREFIX as int),
            price_exponent == wire::i8_at(s, FRAME_PREFIX + 8),
            qty_exponent == wire::i8_at(s, FRAME_PREFIX + 9),
            g.pos == trade_offset(*hdr, s, i as int) || (trade_offset(*hdr, s, i as int)
                > usize::MAX && g.pos == usize::MAX),
            out@.len() == i,
            out@ == trades_upto(*hdr, s, i as nat),
            i > 0 ==> trade_fits(*hdr, s, i - 1),
        decreases num - i,
    {
        let start: usize = g.pos;
        proof {
            assert((i + 1) * b == i * b + b) by (nonlinear_arith);
        }
        let (px, qty, aggressor_side) = match read_trade(&mut g) {
            Some(t) => t,
            None => return out,
        };
        out.push(
            IncrementalTrade {
                transact_time,
                price_exponent,
                qty_exponent,
                px,
                qty,
                aggressor_side,
            },
        );
        g.pos = start.saturating_add(block);
        i = i + 1;
        assert(out@ =~= trades_upto(*hdr, s, i as nat));
    }
    out
}

} // verus!
