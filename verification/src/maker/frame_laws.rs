//! The frames that are sent can be read back, field by field.
use crate::fix::session::FixSession;
use crate::maker::cids::Side;
use crate::maker::orders;
use crate::sbe::encode_laws;
use crate::sbe::frame;
use crate::sbe::wire;
use vstd::prelude::*;
use vstd::utf8;

verus! {

/// A side stands in a frame as the character 1 where it buys and 2 where it sells.
pub proof fn law_sides_differ_in_frames(a: Side, b: Side)
    ensures
        orders::side_byte_spec(Side::Buy) == 0x31,
        orders::side_byte_spec(Side::Sell) == 0x32,
        orders::side_byte_spec(a) == orders::side_byte_spec(b) <==> a == b,
{
}

/// An order that is sent says what was asked for: its side, its price in hundredths and
/// its quantity in ten-thousandths, its client id and its symbol, under the number and
/// the time that it was given.
pub proof fn law_order_frame(
    seq_num: u32,
    ts: i64,
    symbol: Seq<char>,
    side: Side,
    price_mantissa: i64,
    qty_mantissa: i64,
    cid: Seq<u8>,
    f: Seq<u8>,
)
    requires
        cid.len() <= 255,
        utf8::encode_utf8(symbol).len() <= 255,
        orders::place_frame(
            seq_num,
            Some(ts),
            symbol,
            side,
            price_mantissa,
            qty_mantissa,
            cid,
        ) == Some(f),
    ensures
        frame::header_of(f).template_id == 99,
        frame::header_of(f).seq_num == seq_num,
        frame::header_of(f).sending_time == ts,
        wire::i8_at(f, 26) == -2,
        wire::i8_at(f, 27) == -4,
        wire::i64_at(f, 28) == qty_mantissa,
        wire::i64_at(f, 38) == price_mantissa,
        f[36] == 0x32 && f[37] == 0x36,
        side == Side::Buy ==> f[70] == 0x31,
        side == Side::Sell ==> f[70] == 0x32,
        wire::var8_at(f, 102) matches Some((id, p)) && id == cid && (wire::var8_at(f, p) matches Some(
            (name, _),
        ) && name == utf8::encode_utf8(symbol)),
{
    let none = Seq::<u8>::empty();
    let body = orders::place_body(symbol, side, price_mantissa, qty_mantissa, cid);
    encode_laws::law_new_order_reads_back(
        seq_num,
        ts,
        orders::PRICE_EXPONENT,
        orders::QTY_EXPONENT,
        qty_mantissa,
        price_mantissa,
        orders::side_byte_spec(side),
        cid,
        utf8::encode_utf8(symbol),
        none,
    );
    encode_laws::law_header_fields_stand(99, 76, seq_num, ts, body, none);
    assert(f + none =~= f);
}

/// A cancel that is sent names its order: by the exchange's id, or by the client id that
/// it was sent under; and it has a client id of its own.
pub proof fn law_cancel_frame(
    seq_num: u32,
    ts: i64,
    symbol: Seq<char>,
    order_id: i64,
    orig_cid: Seq<u8>,
    cid: Seq<u8>,
    f: Seq<u8>,
)
    requires
        cid.len() <= 255,
        orig_cid.len() <= 255,
        utf8::encode_utf8(symbol).len() <= 255,
        orders::cancel_frame(seq_num, Some(ts), symbol, order_id, orig_cid, cid) == Some(f),
    ensures
        frame::header_of(f).template_id == 101,
        frame::header_of(f).seq_num == seq_num,
        frame::header_of(f).sending_time == ts,
        wire::i64_at(f, 26) == order_id,
        wire::var8_at(f, 43) == Some((cid, 44int + cid.len())),
        wire::var8_at(f, 44int + cid.len()) == Some(
            (orig_cid, 45int + cid.len() + orig_cid.len()),
        ),
        wire::var8_at(f, 46int + cid.len() + orig_cid.len()) matches Some((name, _)) && name
            == utf8::encode_utf8(symbol),
{
    let none = Seq::<u8>::empty();
    let body = orders::cancel_body(symbol, order_id, orig_cid, cid);
    let root = crate::sbe::encode::order_cancel_root(order_id);
    let b = utf8::encode_utf8(symbol);
    wire::lemma_le_bytes_len(cid.len(), 1);
    wire::lemma_le_bytes_len(orig_cid.len(), 1);
    wire::lemma_le_bytes_len(b.len(), 1);
    wire::lemma_le_bytes_len(0, 1);
    encode_laws::law_order_cancel_reads_back(seq_num, ts, order_id, cid, orig_cid, b, none);
    wire::lemma_le_bytes_len(wire::twos64(order_id) as nat, 8);
    wire::lemma_le_bytes_len(wire::twos64(i64::MIN) as nat, 8);
    encode_laws::law_header_fields_stand(101, 17, seq_num, ts, body, none);
    assert(f + none =~= f);
}

/// A cancel by the exchange's id names no client id, one by the client id no id of the
/// exchange; nothing is sent while the clock shows nothing.
pub proof fn law_cancels_name_one_id(
    seq_num: u32,
    now: Option<i64>,
    symbol: Seq<char>,
    order_id: i64,
    orig_cid: Seq<u8>,
    cid: Seq<u8>,
)
    requires
        cid.len() <= 255,
        orig_cid.len() <= 255,
        utf8::encode_utf8(symbol).len() <= 255,
    ensures
        now is None ==> orders::cancel_by_id_frame(seq_num, now, symbol, order_id, cid) is None,
        now is None ==> orders::cancel_by_cid_frame(seq_num, now, symbol, orig_cid, cid) is None,
        now is Some ==> (orders::cancel_by_id_frame(seq_num, now, symbol, order_id, cid) matches Some(
            f,
        ) && wire::i64_at(f, 26) == order_id && wire::var8_at(f, 44int + cid.len()) == Some(
            (Seq::<u8>::empty(), 45int + cid.len()),
        )),
        now is Some ==> (orders::cancel_by_cid_frame(seq_num, now, symbol, orig_cid, cid) matches Some(
            f,
        ) && wire::i64_at(f, 26) == i64::MIN && wire::var8_at(f, 44int + cid.len()) == Some(
            (orig_cid, 45int + cid.len() + orig_cid.len()),
        )),
{
    if let Some(ts) = now {
        let by_id = orders::cancel_by_id_frame(seq_num, now, symbol, order_id, cid)->0;
        let by_cid = orders::cancel_by_cid_frame(seq_num, now, symbol, orig_cid, cid)->0;
        law_cancel_frame(seq_num, ts, symbol, order_id, Seq::empty(), cid, by_id);
        law_cancel_frame(seq_num, ts, symbol, i64::MIN, orig_cid, cid, by_cid);
    }
}

/// A subscription to the book asks for the best bid and ask of its symbol, one level
/// deep and aggregated, under its id.
pub proof fn law_book_subscription_frame(
    seq_num: u32,
    ts: i64,
    symbol: Seq<char>,
    md_req_id: Seq<char>,
    f: Seq<u8>,
)
    requires
        utf8::encode_utf8(symbol).len() <= 255,
        utf8::encode_utf8(md_req_id).len() <= 255,
        orders::book_frame(seq_num, Some(ts), symbol, md_req_id) == Some(f),
    ensures
        ({
            let name = utf8::encode_utf8(symbol);
            let id = utf8::encode_utf8(md_req_id);
            let p = 35int + name.len();
            &&& frame::header_of(f).template_id == 202
            &&& frame::header_of(f).seq_num == seq_num
            &&& frame::header_of(f).sending_time == ts
            &&& f[26] == 0x31
            &&& wire::u16_at(f, 27) == 1
            &&& f[29] == 1
            &&& wire::var8_at(f, 34) == Some((name, p))
            &&& f.subrange(p + 2, p + 4) == seq![0x30u8, 0x31u8]
            &&& wire::var8_at(f, p + 4) == Some((id, p + 5 + id.len()))
        }),
{
    let none = Seq::<u8>::empty();
    let name = utf8::encode_utf8(symbol);
    let id = utf8::encode_utf8(md_req_id);
    let types = seq![0x30u8, 0x31u8];
    assert(f + none =~= f);
    assert(types.len() == 2);
    encode_laws::law_market_data_request_reads_back(
        seq_num,
        ts,
        true,
        Some(1),
        Some(true),
        name,
        types,
        id,
        none,
    );
    let body = orders::book_body(symbol, md_req_id);
    encode_laws::law_request_fits(
        true,
        Some(1),
        Some(true),
        name,
        types,
        id,
    );
    encode_laws::law_header_fields_stand(202, 4, seq_num, ts, body, none);
}

/// A subscription to the trades asks for the trades of its symbol and nothing else,
/// under its id.
pub proof fn law_trades_subscription_frame(
    seq_num: u32,
    ts: i64,
    symbol: Seq<char>,
    md_req_id: Seq<char>,
    f: Seq<u8>,
)
    requires
        utf8::encode_utf8(symbol).len() <= 255,
        utf8::encode_utf8(md_req_id).len() <= 255,
        orders::trades_frame(seq_num, Some(ts), symbol, md_req_id) == Some(f),
    ensures
        ({
            let name = utf8::encode_utf8(symbol);
            let id = utf8::encode_utf8(md_req_id);
            let p = 35int + name.len();
            &&& frame::header_of(f).template_id == 202
            &&& frame::header_of(f).seq_num == seq_num
            &&& frame::header_of(f).sending_time == ts
            &&& f[26] == 0x31
            &&& wire::u16_at(f, 27) == 65_535
            &&& f[29] == 255
            &&& wire::var8_at(f, 34) == Some((name, p))
            &&& f.subrange(p + 2, p + 3) == seq![0x32u8]
            &&& wire::var8_at(f, p + 3) == Some((id, p + 4 + id.len()))
        }),
{
    let none = Seq::<u8>::empty();
    let name = utf8::encode_utf8(symbol);
    let id = utf8::encode_utf8(md_req_id);
    let types = seq![0x32u8];
    assert(f + none =~= f);
    assert(types.len() == 1);
    encode_laws::law_market_data_request_reads_back(
        seq_num,
        ts,
        true,
        None,
        None,
        name,
        types,
        id,
        none,
    );
    let body = orders::trades_body(symbol, md_req_id);
    encode_laws::law_request_fits(
        true,
        None,
        None,
        name,
        types,
        id,
    );
    encode_laws::law_header_fields_stand(202, 4, seq_num, ts, body, none);
}

/// What is sent goes out under the session's next number, which is then used up; where
/// there is nothing to send, the session stays as it is.
pub proof fn law_sent_under_the_next_number(
    before: FixSession,
    after: FixSession,
    seq_num: u32,
    frame: Vec<u8>,
    bytes: Seq<u8>,
)
    ensures
        orders::sends(before, after, Some((seq_num, frame)), Some(bytes)) <==> frame@ == bytes
            && seq_num == before.next_seq && after.next_seq == before.next_seq + 1 && after == (
        FixSession { next_seq: after.next_seq, ..before }),
        orders::sends(before, after, None, None) <==> after == before,
        !orders::sends(before, after, None, Some(bytes)),
        !orders::sends(before, after, Some((seq_num, frame)), None),
{
}

} // verus!
