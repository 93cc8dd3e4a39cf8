//! The frames that place and cancel orders and subscribe to market data.
use crate::fix::session::FixSession;
use crate::fix::time::now_us;
use crate::maker::cids::Side;
use crate::sbe::consts::{
    MARKET_DATA_REQUEST_BLOCK_LEN, MDENTRY_BID, MDENTRY_OFFER, MDENTRY_TRADE,
    NEW_ORDER_SINGLE_BLOCK_LEN, NULL_I64, ORDER_CANCEL_REQUEST_BLOCK_LEN, SIDE_BUY, SIDE_SELL,
};
use crate::sbe::encode;
use crate::sbe::encode::{
    encode_market_data_request, encode_new_order_limit_postonly, encode_order_cancel,
};
use crate::sbe::encoder;
use crate::sbe::tid;
use vstd::prelude::*;
use vstd::utf8;

verus! {

/// Exponent of the prices of orders.
pub const PRICE_EXPONENT: i8 = -2;

/// Exponent of the quantities of orders.
pub const QTY_EXPONENT: i8 = -4;

/// What comes of numbering and building a frame: `content` under the session's
/// next number; or, where there is no content, nothing, and the session as it was.
pub open spec fn sends(
    before: FixSession,
    after: FixSession,
    res: Option<(u32, Vec<u8>)>,
    content: Option<Seq<u8>>,
) -> bool {
    match content {
        Some(bytes) => {
            &&& res matches Some((seq, frame))
            &&& seq == before.next_seq
            &&& frame@ == bytes
            &&& before.numbered_one(after)
        },
        None => res is None && after == before,
    }
}

pub open spec fn side_byte_spec(side: Side) -> u8 {
    match side {
        Side::Buy => SIDE_BUY,
        Side::Sell => SIDE_SELL,
    }
}

/// A side as it stands in a frame.
pub fn side_byte(side: Side) -> (b: u8)
    ensures
        b == side_byte_spec(side),
{
    match side {
        Side::Buy => SIDE_BUY,
        Side::Sell => SIDE_SELL,
    }
}

/// A post-only limit order behind the frame header.
pub open spec fn place_body(
    symbol: Seq<char>,
    side: Side,
    price_mantissa: i64,
    qty_mantissa: i64,
    cid: Seq<u8>,
) -> Seq<u8> {
    encode::new_order_body(
        encode::new_order_root(
            PRICE_EXPONENT,
            QTY_EXPONENT,
            qty_mantissa,
            price_mantissa,
            side_byte_spec(side),
        ),
        cid,
        utf8::encode_utf8(symbol),
    )
}

/// A cancel behind the frame header.
pub open spec fn cancel_body(
    symbol: Seq<char>,
    order_id: i64,
    orig_cid: Seq<u8>,
    cid: Seq<u8>,
) -> Seq<u8> {
    encode::order_cancel_body(
        encode::order_cancel_root(order_id),
        cid,
        orig_cid,
        utf8::encode_utf8(symbol),
    )
}

/// A subscription behind the frame header.
pub open spec fn subscription_body(
    symbol: Seq<char>,
    market_depth: Option<u16>,
    aggregated_book: Option<bool>,
    md_entry_types: Seq<u8>,
    md_req_id: Seq<char>,
) -> Seq<u8> {
    encode::market_data_request_body(
        encode::market_data_request_root(true, market_depth, aggregated_book),
        utf8::encode_utf8(symbol),
        md_entry_types,
        utf8::encode_utf8(md_req_id),
    )
}

/// A subscription to the best bid and ask of a symbol behind the frame header.
pub open spec fn book_body(symbol: Seq<char>, md_req_id: Seq<char>) -> Seq<u8> {
    subscription_body(symbol, Some(1), Some(true), seq![MDENTRY_BID, MDENTRY_OFFER], md_req_id)
}

/// A subscription to the trades of a symbol behind the frame header.
pub open spec fn trades_body(symbol: Seq<char>, md_req_id: Seq<char>) -> Seq<u8> {
    subscription_body(symbol, None, None, seq![MDENTRY_TRADE], md_req_id)
}

/// The frame of a post-only limit order under the number `seq`, when the clock shows
/// `now`; none where it shows nothing.
pub open spec fn place_frame(
    seq: u32,
    now: Option<i64>,
    symbol: Seq<char>,
    side: Side,
    price_mantissa: i64,
    qty_mantissa: i64,
    cid: Seq<u8>,
) -> Option<Seq<u8>> {
    encoder::frame_when(
        tid::NEW_ORDER_SINGLE,
        NEW_ORDER_SINGLE_BLOCK_LEN,
        seq,
        now,
        place_body(symbol, side, price_mantissa, qty_mantissa, cid),
    )
}

/// The frame of a cancel, likewise.
pub open spec fn cancel_frame(
    seq: u32,
    now: Option<i64>,
    symbol: Seq<char>,
    order_id: i64,
    orig_cid: Seq<u8>,
    cid: Seq<u8>,
) -> Option<Seq<u8>> {
    encoder::frame_when(
        tid::ORDER_CANCEL_REQUEST,
        ORDER_CANCEL_REQUEST_BLOCK_LEN,
        seq,
        now,
        cancel_body(symbol, order_id, orig_cid, cid),
    )
}

/// The frame of a cancel by the exchange's id.
pub open spec fn cancel_by_id_frame(
    seq: u32,
    now: Option<i64>,
    symbol: Seq<char>,
    order_id: i64,
    cid: Seq<u8>,
) -> Option<Seq<u8>> {
    cancel_frame(seq, now, symbol, order_id, Seq::empty(), cid)
}

/// The frame of a cancel by the client order id.
pub open spec fn cancel_by_cid_frame(
    seq: u32,
    now: Option<i64>,
    symbol: Seq<char>,
    orig_cid: Seq<u8>,
    cid: Seq<u8>,
) -> Option<Seq<u8>> {
    cancel_frame(seq, now, symbol, NULL_I64, orig_cid, cid)
}

/// The frame of a subscription to the best bid and ask of a symbol.
pub open spec fn book_frame(
    seq: u32,
    now: Option<i64>,
    symbol: Seq<char>,
    md_req_id: Seq<char>,
) -> Option<Seq<u8>> {
    encoder::frame_when(
        tid::MARKET_DATA_REQUEST,
        MARKET_DATA_REQUEST_BLOCK_LEN,
        seq,
        now,
        book_body(symbol, md_req_id),
    )
}

/// The frame of a subscription to the trades of a symbol.
pub open spec fn trades_frame(
    seq: u32,
    now: Option<i64>,
    symbol: Seq<char>,
    md_req_id: Seq<char>,
) -> Option<Seq<u8>> {
    encoder::frame_when(
        tid::MARKET_DATA_REQUEST,
        MARKET_DATA_REQUEST_BLOCK_LEN,
        seq,
        now,
        trades_body(symbol, md_req_id),
    )
}

/// A post-only limit order to send when the clock shows `now`, in microseconds; nothing where it shows
/// nothing.
pub fn place_limit_when(
    session: &mut FixSession,
    now: Option<i64>,
    symbol: &str,
    side: Side,
    price_mantissa: i64,
    qty_mantissa: i64,
    cid: &[u8],
) -> (res: Option<(u32, Vec<u8>)>)
    requires
        old(session).next_seq < u32::MAX,
        utf8::encode_utf8(symbol@).len() <= u8::MAX,
        cid@.len() <= u8::MAX,
    ensures
        sends(
            *old(session),
            *final(session),
            res,
            place_frame(
                old(session).next_seq,
                now,
                symbol@,
                side,
                price_mantissa,
                qty_mantissa,
                cid@,
            ),
        ),
{
    let build = |seq: u32, ts: i64| -> (frame: Vec<u8>)
        ensures
            frame@ == encoder::frame_of(
                tid::NEW_ORDER_SINGLE,
                NEW_ORDER_SINGLE_BLOCK_LEN,
                seq,
                ts,
                place_body(symbol@, side, price_mantissa, qty_mantissa, cid@),
            ),
        {
            encode_new_order_limit_postonly(
                seq,
                ts,
                PRICE_EXPONENT,
                QTY_EXPONENT,
                qty_mantissa,
                price_mantissa,
                side_byte(side),
                cid,
                symbol.as_bytes(),
            )
        };
    session.send_when(now, build)
}

/// A post-only limit order to send now; nothing while the system clock stands before the Unix epoch.
pub fn place_limit(
    session: &mut FixSession,
    symbol: &str,
    side: Side,
    price_mantissa: i64,
    qty_mantissa: i64,
    cid: &[u8],
) -> (res: Option<(u32, Vec<u8>)>)
    requires
        old(session).next_seq < u32::MAX,
        utf8::encode_utf8(symbol@).len() <= u8::MAX,
        cid@.len() <= u8::MAX,
    ensures
        exists|now: Option<i64>|
            sends(
                *old(session),
                *final(session),
                res,
                #[trigger] place_frame(
                    old(session).next_seq,
                    now,
                    symbol@,
                    side,
                    price_mantissa,
                    qty_mantissa,
                    cid@,
                ),
            ),
{
    place_limit_when(session, now_us(), symbol, side, price_mantissa, qty_mantissa, cid)
}

/// A cancel of the order `order_id` or, where that is `NULL_I64`, of the order
/// under `orig_cid`, to send when the clock shows `now`.
fn build_cancel(
    session: &mut FixSession,
    now: Option<i64>,
    symbol: &str,
    order_id: i64,
    orig_cid: &[u8],
    cid: &[u8],
) -> (res: Option<(u32, Vec<u8>)>)
    requires
        old(session).next_seq < u32::MAX,
        utf8::encode_utf8(symbol@).len() <= u8::MAX,
        orig_cid@.len() <= u8::MAX,
        cid@.len() <= u8::MAX,
    ensures
        sends(
            *old(session),
            *final(session),
            res,
            cancel_frame(old(session).next_seq, now, symbol@, order_id, orig_cid@, cid@),
        ),
{
    let build = |seq: u32, ts: i64| -> (frame: Vec<u8>)
        ensures
            frame@ == encoder::frame_of(
                tid::ORDER_CANCEL_REQUEST,
                ORDER_CANCEL_REQUEST_BLOCK_LEN,
                seq,
                ts,
                cancel_body(symbol@, order_id, orig_cid@, cid@),
            ),
        { encode_order_cancel(seq, ts, order_id, cid, orig_cid, symbol.as_bytes()) };
    session.send_when(now, build)
}

/// A cancel of an order by the exchange's id to send when the clock shows `now`, in microseconds; nothing where it shows
/// nothing.
pub fn cancel_when(
    session: &mut FixSession,
    now: Option<i64>,
    symbol: &str,
    order_id: i64,
    cid: &[u8],
) -> (res: Option<(u32, Vec<u8>)>)
    requires
        old(session).next_seq < u32::MAX,
        utf8::encode_utf8(symbol@).len() <= u8::MAX,
        cid@.len() <= u8::MAX,
    ensures
        sends(
            *old(session),
            *final(session),
            res,
            cancel_by_id_frame(old(session).next_seq, now, symbol@, order_id, cid@),
        ),
{
    let none: [u8; 0] = [];
    assert(none@ =~= Seq::<u8>::empty());
    build_cancel(session, now, symbol, order_id, &none, cid)
}

/// A cancel of an order by the exchange's id to send now; nothing while the system clock stands before the Unix epoch.
pub fn cancel(
    session: &mut FixSession,
    symbol: &str,
    order_id: i64,
    cid: &[u8],
) -> (res: Option<(u32, Vec<u8>)>)
    requires
        old(session).next_seq < u32::MAX,
        utf8::encode_utf8(symbol@).len() <= u8::MAX,
        cid@.len() <= u8::MAX,
    ensures
        exists|now: Option<i64>|
            sends(
                *old(session),
                *final(session),
                res,
                #[trigger] cancel_by_id_frame(old(session).next_seq, now, symbol@, order_id, cid@),
            ),
{
    cancel_when(session, now_us(), symbol, order_id, cid)
}

/// A cancel of an order by its client order id, whose other id is not known yet, to send when the clock shows `now`, in microseconds; nothing where it shows
/// nothing.
pub fn cancel_by_cid_when(
    session: &mut FixSession,
    now: Option<i64>,
    symbol: &str,
    orig_cid: &[u8],
    cid: &[u8],
) -> (res: Option<(u32, Vec<u8>)>)
    requires
        old(session).next_seq < u32::MAX,
        utf8::encode_utf8(symbol@).len() <= u8::MAX,
        orig_cid@.len() <= u8::MAX,
        cid@.len() <= u8::MAX,
    ensures
        sends(
            *old(session),
            *final(session),
            res,
            cancel_by_cid_frame(old(session).next_seq, now, symbol@, orig_cid@, cid@),
        ),
{
    build_cancel(session, now, symbol, NULL_I64, orig_cid, cid)
}

/// A cancel of an order by its client order id, whose other id is not known yet, to send now; nothing while the system clock stands before the Unix epoch.
pub fn cancel_by_cid(
    session: &mut FixSession,
    symbol: &str,
    orig_cid: &[u8],
    cid: &[u8],
) -> (res: Option<(u32, Vec<u8>)>)
    requires
        old(session).next_seq < u32::MAX,
        utf8::encode_utf8(symbol@).len() <= u8::MAX,
        orig_cid@.len() <= u8::MAX,
        cid@.len() <= u8::MAX,
    ensures
        exists|now: Option<i64>|
            sends(
                *old(session),
                *final(session),
                res,
                #[trigger] cancel_by_cid_frame(
                    old(session).next_seq,
                    now,
                    symbol@,
                    orig_cid@,
                    cid@,
                ),
            ),
{
    cancel_by_cid_when(session, now_us(), symbol, orig_cid, cid)
}

/// A subscription to send when the clock shows `now`.
fn build_subscription(
    session: &mut FixSession,
    now: Option<i64>,
    symbol: &str,
    market_depth: Option<u16>,
    aggregated_book: Option<bool>,
    md_entry_types: &[u8],
    md_req_id: &str,
) -> (res: Option<(u32, Vec<u8>)>)
    requires
        old(session).next_seq < u32::MAX,
        utf8::encode_utf8(symbol@).len() <= u8::MAX,
        utf8::encode_utf8(md_req_id@).len() <= u8::MAX,
    ensures
        sends(
            *old(session),
            *final(session),
            res,
            encoder::frame_when(
                tid::MARKET_DATA_REQUEST,
                MARKET_DATA_REQUEST_BLOCK_LEN,
                old(session).next_seq,
                now,
                subscription_body(
                    symbol@,
                    market_depth,
                    aggregated_book,
                    md_entry_types@,
                    md_req_id@,
                ),
            ),
        ),
{
    let build = |seq: u32, ts: i64| -> (frame: Vec<u8>)
        ensures
            frame@ == encoder::frame_of(
                tid::MARKET_DATA_REQUEST,
                MARKET_DATA_REQUEST_BLOCK_LEN,
                seq,
                ts,
                subscription_body(
                    symbol@,
                    market_depth,
                    aggregated_book,
                    md_entry_types@,
                    md_req_id@,
                ),
            ),
        {
            encode_market_data_request(
                seq,
                ts,
                true,
                market_depth,
                aggregated_book,
                symbol.as_bytes(),
                md_entry_types,
                md_req_id.as_bytes(),
            )
        };
    session.send_when(now, build)
}

/// A subscription to the best bid and ask of a symbol to send when the clock shows `now`, in microseconds; nothing where it shows
/// nothing.
pub fn subscribe_book_when(
    session: &mut FixSession,
    now: Option<i64>,
    symbol: &str,
    md_req_id: &str,
) -> (res: Option<(u32, Vec<u8>)>)
    requires
        old(session).next_seq < u32::MAX,
        utf8::encode_utf8(symbol@).len() <= u8::MAX,
        utf8::encode_utf8(md_req_id@).len() <= u8::MAX,
    ensures
        sends(
            *old(session),
            *final(session),
            res,
            book_frame(old(session).next_seq, now, symbol@, md_req_id@),
        ),
{
    let types: [u8; 2] = [MDENTRY_BID, MDENTRY_OFFER];
    assert(types@ =~= seq![MDENTRY_BID, MDENTRY_OFFER]);
    build_subscription(session, now, symbol, Some(1), Some(true), &types, md_req_id)
}

/// A subscription to the best bid and ask of a symbol to send now; nothing while the system clock stands before the Unix epoch.
pub fn subscribe_book(
    session: &mut FixSession,
    symbol: &str,
    md_req_id: &str,
) -> (res: Option<(u32, Vec<u8>)>)
    requires
        old(session).next_seq < u32::MAX,
        utf8::encode_utf8(symbol@).len() <= u8::MAX,
        utf8::encode_utf8(md_req_id@).len() <= u8::MAX,
    ensures
        exists|now: Option<i64>|
            sends(
                *old(session),
                *final(session),
                res,
                #[trigger] book_frame(old(session).next_seq, now, symbol@, md_req_id@),
            ),
{
    subscribe_book_when(session, now_us(), symbol, md_req_id)
}

/// A subscription to the trades of a symbol to send when the clock shows `now`, in microseconds; nothing where it shows
/// nothing.
pub fn subscribe_trades_when(
    session: &mut FixSession,
    now: Option<i64>,
    symbol: &str,
    md_req_id: &str,
) -> (res: Option<(u32, Vec<u8>)>)
    requires
        old(session).next_seq < u32::MAX,
        utf8::encode_utf8(symbol@).len() <= u8::MAX,
        utf8::encode_utf8(md_req_id@).len() <= u8::MAX,
    ensures
        sends(
            *old(session),
            *final(session),
            res,
            trades_frame(old(session).next_seq, now, symbol@, md_req_id@),
        ),
{
    let types: [u8; 1] = [MDENTRY_TRADE];
    assert(types@ =~= seq![MDENTRY_TRADE]);
    build_subscription(session, now, symbol, None, None, &types, md_req_id)
}

/// A subscription to the trades of a symbol to send now; nothing while the system clock stands before the Unix epoch.
pub fn subscribe_trades(
    session: &mut FixSession,
    symbol: &str,
    md_req_id: &str,
) -> (res: Option<(u32, Vec<u8>)>)
    requires
        old(session).next_seq < u32::MAX,
        utf8::encode_utf8(symbol@).len() <= u8::MAX,
        utf8::encode_utf8(md_req_id@).len() <= u8::MAX,
    ensures
        exists|now: Option<i64>|
            sends(
                *old(session),
                *final(session),
                res,
                #[trigger] trades_frame(old(session).next_seq, now, symbol@, md_req_id@),
            ),
{
    subscribe_trades_when(session, now_us(), symbol, md_req_id)
}

/// Takes the next number for a client order id.
pub fn next_cid_counter(counter: &mut u64) -> (n: u64)
    ensures
        n == *old(counter),
        *final(counter) == old(counter).wrapping_add(1),
{
    let n: u64 = *counter;
    *counter = n.wrapping_add(1);
    n
}

} // verus!
