//! What is decoded of market data is what its sender wrote in it.
use crate::sbe::decode_laws;
use crate::sbe::encode_laws;
use crate::sbe::frame;
use crate::sbe::market;
use crate::sbe::messages::{BookTickerView, IncrementalTrade};
use crate::sbe::place;
use crate::sbe::wire;
use vstd::prelude::*;

verus! {

/// The entries of a group one behind the other.
pub open spec fn joined(entries: Seq<Seq<u8>>) -> Seq<u8>
    decreases entries.len(),
{
    if entries.len() == 0 {
        Seq::empty()
    } else {
        joined(entries.drop_last()) + entries.last()
    }
}

/// Each entry has `block` bytes.
pub open spec fn blocks(entries: Seq<Seq<u8>>, block: nat) -> bool {
    forall|i: int| 0 <= i < entries.len() ==> (#[trigger] entries[i]).len() == block
}

/// Entry `k` stands `k` blocks behind the first.
proof fn lemma_entry_stands(s: Seq<u8>, p: int, entries: Seq<Seq<u8>>, block: nat, k: int)
    requires
        blocks(entries, block),
        place::stands(s, p, joined(entries)),
    ensures
        joined(entries).len() == entries.len() * block,
        0 <= k < entries.len() ==> place::stands(s, p + k * block, entries[k]),
    decreases entries.len(),
{
    broadcast use place::group_stands;

    if entries.len() > 0 {
        let front = entries.drop_last();
        let n = front.len() as int;
        assert forall|i: int| 0 <= i < front.len() implies (#[trigger] front[i]).len() == block by {
            assert(front[i] == entries[i]);
        }
        assert(place::stands(s, p, joined(front)));
        lemma_entry_stands(s, p, front, block, k);
        assert(entries.last() == entries[n]);
        assert((n + 1) * block == n * block + block) by (nonlinear_arith);
        if k == n {
            assert(place::stands(s, p + joined(front).len(), entries.last()));
        } else if 0 <= k < n {
            assert(front[k] == entries[k]);
        }
    }
}

/// One side of a book as it is written: the length of an entry, the number of entries
/// in one byte or in two, and the entries.
pub open spec fn side_bytes(block: u8, entries: Seq<Seq<u8>>, wide: bool) -> Seq<u8> {
    (seq![block] + (if wide {
        wire::le_bytes(entries.len(), 2)
    } else {
        seq![entries.len() as u8]
    })) + joined(entries)
}

/// The number at the front of the first entry, or zero where there is none: the price.
pub open spec fn first_px(entries: Seq<Seq<u8>>) -> i64 {
    if entries.len() > 0 {
        wire::i64_at(entries[0], 0)
    } else {
        0
    }
}

/// The next number of the first entry, or zero where there is none: the size.
pub open spec fn first_qty(entries: Seq<Seq<u8>>) -> i64 {
    if entries.len() > 0 {
        wire::i64_at(entries[0], 8)
    } else {
        0
    }
}

/// A number that is read in a part is read where the part stands.
proof fn lemma_i64_within(s: Seq<u8>, p: int, x: Seq<u8>, q: int)
    requires
        place::stands(s, p, x),
        0 <= q,
        q + 8 <= x.len(),
    ensures
        wire::i64_at(s, p + q) == wire::i64_at(x, q),
{
    assert(s.subrange(p + q, p + q + 8) =~= s.subrange(p, p + x.len()).subrange(q, q + 8));
}

/// A side is read from where it stands: its first level, and where it ends.
proof fn lemma_side_reads_back(
    s: Seq<u8>,
    p: int,
    block: u8,
    entries: Seq<Seq<u8>>,
    wide: bool,
)
    requires
        block >= 16,
        blocks(entries, block as nat),
        wide ==> entries.len() <= 65_535,
        !wide ==> entries.len() <= 255,
        place::stands(s, p, side_bytes(block, entries, wide)),
    ensures
        market::side_levels(s, p, wide) matches Some(l) && l.px == first_px(entries) && l.qty
            == first_qty(entries) && l.next == p + side_bytes(block, entries, wide).len(),
{
    broadcast use place::group_stands;

    let n = entries.len() as int;
    let b = block as int;
    let count = if wide {
        wire::le_bytes(entries.len(), 2)
    } else {
        seq![entries.len() as u8]
    };
    wire::lemma_le_bytes_len(entries.len(), 2);
    assert(place::stands(s, p, seq![block] + count));
    let q = p + 1 + count.len();
    assert(place::stands(s, p + 1, count));
    if wide {
        assert(place::stands(s, p + 1, wire::le_bytes(entries.len() as u16 as nat, 2)));
    }
    assert(place::stands(s, q, joined(entries)));
    lemma_entry_stands(s, q, entries, block as nat, 0);
    if n > 0 {
        lemma_entry_stands(s, q, entries, block as nat, n - 1);
        assert((n - 1) * b + b == n * b) by (nonlinear_arith);
        lemma_i64_within(s, q, entries[0], 0);
        lemma_i64_within(s, q, entries[0], 8);
    }
}

/// A top-of-book frame decodes to the first level of its bids and the first level of
/// its asks, each whatever the other is: its price and size are the first two numbers
/// of the first entry, or zero where a side has no entries. The id, the exponents and
/// the symbol are those that were written.
pub proof fn law_book_reads_back(
    template_id: u16,
    seq_num: u32,
    sending_time: i64,
    update_id: i64,
    price_exponent: i8,
    qty_exponent: i8,
    more: Seq<u8>,
    bid_block: u8,
    bids: Seq<Seq<u8>>,
    ask_block: u8,
    asks: Seq<Seq<u8>>,
    symbol: Seq<u8>,
    wide: bool,
    rest: Seq<u8>,
)
    requires
        more.len() <= 60_000,
        bid_block >= 16 && ask_block >= 16,
        blocks(bids, bid_block as nat),
        blocks(asks, ask_block as nat),
        wide ==> bids.len() <= 65_535 && asks.len() <= 65_535,
        !wide ==> bids.len() <= 255 && asks.len() <= 255,
        symbol.len() <= 255,
    ensures
        ({
            let root = decode_laws::i64_bytes(update_id) + seq![wire::twos8(price_exponent)]
                + seq![wire::twos8(qty_exponent)] + more;
            let s = decode_laws::sent(
                template_id,
                root.len(),
                seq_num,
                sending_time,
                root + side_bytes(bid_block, bids, wide) + side_bytes(ask_block, asks, wide)
                    + wire::var8_bytes(symbol),
                rest,
            );
            market::book_spec(frame::header_of(s), s, wide) == Some(
                BookTickerView {
                    last_book_update_id: update_id,
                    price_exponent,
                    qty_exponent,
                    bid_px: first_px(bids),
                    bid_qty: first_qty(bids),
                    ask_px: first_px(asks),
                    ask_qty: first_qty(asks),
                    symbol,
                },
            )
        }),
{
    broadcast use place::group_stands;

    let root = decode_laws::i64_bytes(update_id) + seq![wire::twos8(price_exponent)] + seq![
        wire::twos8(qty_exponent),
    ] + more;
    let (bid_side, ask_side) = (
        side_bytes(bid_block, bids, wide),
        side_bytes(ask_block, asks, wide),
    );
    let body = root + bid_side + ask_side + wire::var8_bytes(symbol);
    lemma_side_len(bid_block, bids, wide);
    lemma_side_len(ask_block, asks, wide);
    wire::lemma_le_bytes_len(symbol.len(), 1);
    encode_laws::law_header_fields_stand(
        template_id,
        root.len() as u16,
        seq_num,
        sending_time,
        body,
        rest,
    );
    let s = decode_laws::sent(template_id, root.len(), seq_num, sending_time, body, rest);
    let p = 26 + root.len() as int;
    assert(place::stands(s, 26, root + bid_side + ask_side));
    assert(place::stands(s, 26, root + bid_side));
    assert(place::stands(s, 26, root));
    assert(place::stands(s, p, bid_side));
    assert(place::stands(s, p + bid_side.len(), ask_side));
    lemma_side_reads_back(s, p, bid_block, bids, wide);
    lemma_side_reads_back(s, p + bid_side.len(), ask_block, asks, wide);
    assert(place::stands(s, p + bid_side.len() + ask_side.len(), wire::var8_bytes(symbol)));
    place::law_twos_complement(price_exponent, 0, update_id);
    place::law_twos_complement(qty_exponent, 0, 0);
}

/// A side is not longer than its numbers allow.
proof fn lemma_side_len(block: u8, entries: Seq<Seq<u8>>, wide: bool)
    requires
        blocks(entries, block as nat),
        entries.len() <= 65_535,
    ensures
        side_bytes(block, entries, wide).len() <= 3 + 65_535 * 255,
{
    wire::lemma_le_bytes_len(entries.len(), 2);
    let j = joined(entries);
    assert(j.subrange(0, j.len() as int) =~= j);
    lemma_entry_stands(j, 0, entries, block as nat, 0);
    assert(entries.len() * block <= 65_535 * 255) by (nonlinear_arith)
        requires
            entries.len() <= 65_535,
            block <= 255,
    ;
}

/// A level as it is written, with later fields behind it.
pub open spec fn level_bytes(px: i64, qty: i64, later: Seq<u8>) -> Seq<u8> {
    decode_laws::i64_bytes(px) + decode_laws::i64_bytes(qty) + later
}

/// The first level of a side is its price and size as they were written.
pub proof fn law_first_level(
    px: i64,
    qty: i64,
    later: Seq<u8>,
    others: Seq<Seq<u8>>,
)
    ensures
        first_px(seq![level_bytes(px, qty, later)] + others) == px,
        first_qty(seq![level_bytes(px, qty, later)] + others) == qty,
        level_bytes(px, qty, later).len() == 16 + later.len(),
        first_px(Seq::empty()) == 0 && first_qty(Seq::empty()) == 0,
{
    broadcast use place::group_stands;

    let x = level_bytes(px, qty, later);
    assert(x.subrange(0, x.len() as int) =~= x);
    assert(place::stands(x, 0, x));
    assert(place::stands(x, 0, decode_laws::i64_bytes(px) + decode_laws::i64_bytes(qty)));
    assert(place::stands(x, 8, decode_laws::i64_bytes(qty)));
    assert((seq![x] + others)[0] == x);
    place::law_twos_complement(0, 0, px);
    place::law_twos_complement(0, 0, qty);
}

/// The side of the taker: none where the byte is the null value.
pub open spec fn taker(side: u8) -> u8 {
    if side == 255 {
        0
    } else {
        side
    }
}

/// One written trade: what is written besides the trade itself.
pub struct Written {
    pub id: i64,
    pub px: i64,
    pub qty: i64,
    pub side: u8,
    pub later: Seq<u8>,
}

/// The entries of written trades.
pub open spec fn written_bytes(ts: Seq<Written>) -> Seq<Seq<u8>> {
    Seq::new(
        ts.len(),
        |k: int|
            decode_laws::i64_bytes(ts[k].id) + decode_laws::i64_bytes(ts[k].px)
                + decode_laws::i64_bytes(ts[k].qty) + seq![ts[k].side] + ts[k].later,
    )
}

/// A trade frame decodes to all of its trades, in order, each with its own price, size
/// and side and with the time and the exponents of the frame; and to the last of them
/// where one is asked for.
pub proof fn law_trades_read_back(
    seq_num: u32,
    sending_time: i64,
    transact_time: i64,
    price_exponent: i8,
    qty_exponent: i8,
    more: Seq<u8>,
    block: u16,
    ts: Seq<Written>,
    rest: Seq<u8>,
    all: Seq<IncrementalTrade>,
    k: int,
)
    requires
        more.len() <= 60_000,
        block >= 25,
        forall|i: int| 0 <= i < ts.len() ==> (#[trigger] ts[i]).later.len() + 25 == block,
        ts.len() <= 60_000,
        ({
            let root = decode_laws::i64_bytes(transact_time) + seq![wire::twos8(price_exponent)]
                + seq![wire::twos8(qty_exponent)] + more;
            let s = decode_laws::sent(
                205,
                root.len(),
                seq_num,
                sending_time,
                root + (wire::le_bytes(block as nat, 2) + wire::le_bytes(ts.len(), 4) + joined(
                    written_bytes(ts),
                )),
                rest,
            );
            all == market::all_trades(frame::header_of(s), s)
        }),
    ensures
        all.len() == ts.len(),
        0 <= k < ts.len() ==> all[k] == (IncrementalTrade {
            transact_time,
            price_exponent,
            qty_exponent,
            px: ts[k].px,
            qty: ts[k].qty,
            aggressor_side: taker(ts[k].side),
        }),
        ({
            let root = decode_laws::i64_bytes(transact_time) + seq![wire::twos8(price_exponent)]
                + seq![wire::twos8(qty_exponent)] + more;
            let s = decode_laws::sent(
                205,
                root.len(),
                seq_num,
                sending_time,
                root + (wire::le_bytes(block as nat, 2) + wire::le_bytes(ts.len(), 4) + joined(
                    written_bytes(ts),
                )),
                rest,
            );
            &&& ts.len() > 0 ==> market::incremental_trade_spec(frame::header_of(s), s) == Some(
                all.last(),
            )
            &&& ts.len() == 0 ==> market::incremental_trade_spec(frame::header_of(s), s) is None
        }),
{
    broadcast use place::group_stands;

    let root = decode_laws::i64_bytes(transact_time) + seq![wire::twos8(price_exponent)] + seq![
        wire::twos8(qty_exponent),
    ] + more;
    let entries = written_bytes(ts);
    let group = wire::le_bytes(block as nat, 2) + wire::le_bytes(ts.len(), 4) + joined(entries);
    let body = root + group;
    let n = ts.len() as int;
    let b = block as int;
    wire::lemma_le_bytes_len(block as nat, 2);
    wire::lemma_le_bytes_len(ts.len(), 4);
    assert forall|i: int| 0 <= i < entries.len() implies (#[trigger] entries[i]).len() == block by {
        assert(ts[i].later.len() + 25 == block);
    }
    let j = joined(entries);
    assert(j.subrange(0, j.len() as int) =~= j);
    lemma_entry_stands(j, 0, entries, block as nat, 0);
    assert(n * b <= 60_000 * 65_535) by (nonlinear_arith)
        requires
            0 <= n <= 60_000,
            0 <= b <= 65_535,
    ;
    encode_laws::law_header_fields_stand(
        205,
        root.len() as u16,
        seq_num,
        sending_time,
        body,
        rest,
    );
    let s = decode_laws::sent(205, root.len(), seq_num, sending_time, body, rest);
    let hdr = frame::header_of(s);
    let p = 26 + root.len() as int;
    assert(place::stands(s, 26, root));
    assert(place::stands(s, p, group));
    assert(place::stands(
        s,
        p,
        wire::le_bytes(block as nat, 2) + wire::le_bytes(ts.len(), 4),
    ));
    assert(place::stands(s, p + 2, wire::le_bytes(ts.len() as u32 as nat, 4)));
    assert(place::stands(s, p + 6, j));
    place::law_twos_complement(price_exponent, 0, transact_time);
    place::law_twos_complement(qty_exponent, 0, 0);
    assert(market::trade_group_there(hdr, s));
    assert(market::trade_block(hdr, s) == b);
    assert(market::trade_num(hdr, s) == n);
    assert forall|i: int| 0 <= i < n implies {
        &&& #[trigger] market::trade_fits(hdr, s, i)
        &&& market::trade_at(s, market::trade_offset(hdr, s, i)) == (IncrementalTrade {
            transact_time,
            price_exponent,
            qty_exponent,
            px: ts[i].px,
            qty: ts[i].qty,
            aggressor_side: taker(ts[i].side),
        })
    } by {
        lemma_entry_stands(s, p + 6, entries, block as nat, i);
        lemma_written_trade(s, p + 6 + i * b, ts[i]);
    }
    let got = market::trades_upto(hdr, s, ts.len());
    assert(market::incremental_trades(hdr, s, got)) by {
        if n > 0 {
            assert(market::trade_fits(hdr, s, n - 1));
        }
    }
    market::lemma_incremental_trades_unique(hdr, s, got, all);
    if 0 <= k < n {
        assert(market::trade_fits(hdr, s, k));
    }
    if n > 0 {
        assert(market::trade_fits(hdr, s, n - 1));
    }
}

/// A trade is read from where it stands.
proof fn lemma_written_trade(s: Seq<u8>, p: int, w: Written)
    requires
        place::stands(
            s,
            p,
            decode_laws::i64_bytes(w.id) + decode_laws::i64_bytes(w.px) + decode_laws::i64_bytes(
                w.qty,
            ) + seq![w.side] + w.later,
        ),
    ensures
        p + 25 <= s.len(),
        wire::i64_at(s, p + 8) == w.px,
        wire::i64_at(s, p + 16) == w.qty,
        s[p + 24] == w.side,
{
    broadcast use place::group_stands;

    place::law_twos_complement(0, 0, w.px);
    place::law_twos_complement(0, 0, w.qty);
    assert(place::stands(
        s,
        p,
        decode_laws::i64_bytes(w.id) + decode_laws::i64_bytes(w.px) + decode_laws::i64_bytes(w.qty)
            + seq![w.side],
    ));
    assert(place::stands(s, p + 8, decode_laws::i64_bytes(w.px)));
    assert(place::stands(s, p + 16, decode_laws::i64_bytes(w.qty)));
    assert(place::stands(s, p + 24, seq![w.side]));
}

} // verus!
