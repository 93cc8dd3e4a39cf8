//! What a peer reads in the frames that a session sends: every field, where the
//! schema has it.
use crate::sbe::encode;
use crate::sbe::encoder;
use crate::sbe::frame;
use crate::sbe::place;
use crate::sbe::wire;
use vstd::prelude::*;

verus! {

/// The body of a frame stands behind the 26 bytes of its header.
proof fn lemma_body_stands(
    template_id: u16,
    block_length: u16,
    seq_num: u32,
    sending_time: i64,
    body: Seq<u8>,
    rest: Seq<u8>,
)
    ensures
        place::stands(
            encoder::frame_of(template_id, block_length, seq_num, sending_time, body) + rest,
            26,
            body,
        ),
{
    let total = 26 + body.len();
    encoder::lemma_frame_head_len(total, template_id, block_length, seq_num, sending_time);
    let s = encoder::frame_of(template_id, block_length, seq_num, sending_time, body) + rest;
    assert(s.subrange(26, 26int + body.len()) =~= body);
}

/// Every frame says in its first bytes how long it is, that it is SBE, what message
/// it is, how long its root block is, under which number and when it was sent.
pub proof fn law_header_fields_stand(
    template_id: u16,
    block_length: u16,
    seq_num: u32,
    sending_time: i64,
    body: Seq<u8>,
    rest: Seq<u8>,
)
    requires
        26 + body.len() <= u32::MAX,
    ensures
        ({
            let f = encoder::frame_of(template_id, block_length, seq_num, sending_time, body);
            let s = f + rest;
            &&& f.len() == 26 + body.len()
            &&& wire::u32_at(s, 0) == f.len()
            &&& wire::u16_at(s, 4) == 0xEB50
            &&& wire::u16_at(s, 6) == block_length
            &&& wire::u16_at(s, 8) == template_id
            &&& wire::u16_at(s, 10) == 1
            &&& wire::u16_at(s, 12) == 1
            &&& wire::u32_at(s, 14) == seq_num
            &&& wire::i64_at(s, 18) == sending_time
            &&& place::stands(s, 26, body)
            &&& frame::header_of(s).template_id == template_id
            &&& frame::header_of(s).block_length == block_length
            &&& frame::header_of(s).seq_num == seq_num
            &&& frame::header_of(s).sending_time == sending_time
            &&& frame::header_of(s).after_root_spec() == 26 + block_length
            &&& frame::next_frame_len_spec(s) == Some(f.len() as int)
            &&& frame::encoding_ok(s)
        }),
{
    encoder::law_frame_header_round_trip(
        template_id,
        block_length,
        seq_num,
        sending_time,
        body,
        rest,
    );
    let total = 26 + body.len();
    encoder::lemma_frame_head_len(total, template_id, block_length, seq_num, sending_time);
    lemma_body_stands(template_id, block_length, seq_num, sending_time, body, rest);
}

/// A NewOrderSingle can be read back from its frame: the exponents, the quantity, the
/// price and the side that were given, the client order id and the symbol; and that it
/// is a limit order that may only rest.
pub proof fn law_new_order_reads_back(
    seq_num: u32,
    sending_time: i64,
    price_exponent: i8,
    qty_exponent: i8,
    qty_mantissa: i64,
    price_mantissa: i64,
    side: u8,
    cl_ord_id: Seq<u8>,
    symbol: Seq<u8>,
    rest: Seq<u8>,
)
    requires
        cl_ord_id.len() <= 255,
        symbol.len() <= 255,
    ensures
        ({
            let body = encode::new_order_body(
                encode::new_order_root(
                    price_exponent,
                    qty_exponent,
                    qty_mantissa,
                    price_mantissa,
                    side,
                ),
                cl_ord_id,
                symbol,
            );
            let s = encoder::frame_of(99, 76, seq_num, sending_time, body) + rest;
            &&& wire::i8_at(s, 26) == price_exponent
            &&& wire::i8_at(s, 27) == qty_exponent
            &&& wire::i64_at(s, 28) == qty_mantissa
            &&& s[36] == 0x32
            &&& s[37] == 0x36
            &&& wire::i64_at(s, 38) == price_mantissa
            &&& s[70] == side
            &&& wire::var8_at(s, 102) == Some((cl_ord_id, 103int + cl_ord_id.len()))
            &&& wire::var8_at(s, 103int + cl_ord_id.len()) == Some(
                (symbol, 104int + cl_ord_id.len() + symbol.len()),
            )
            &&& body.len() == 78 + cl_ord_id.len() + symbol.len()
        }),
{
    broadcast use place::group_stands;

    let root = encode::new_order_root(
        price_exponent,
        qty_exponent,
        qty_mantissa,
        price_mantissa,
        side,
    );
    let body = encode::new_order_body(root, cl_ord_id, symbol);
    let s = encoder::frame_of(99, 76, seq_num, sending_time, body) + rest;
    lemma_body_stands(99, 76, seq_num, sending_time, body, rest);
    assert(place::stands(s, 26, root + wire::var8_bytes(cl_ord_id)));
    assert(place::stands(s, 26, root));
    place::law_twos_complement(price_exponent, 0, qty_mantissa);
    place::law_twos_complement(qty_exponent, 0, price_mantissa);
}

/// What a NewOrderSingle does not use is absent: each such field holds its null value.
pub proof fn law_new_order_leaves_the_rest_absent(
    price_exponent: i8,
    qty_exponent: i8,
    qty_mantissa: i64,
    price_mantissa: i64,
    side: u8,
)
    ensures
        ({
            let r = encode::new_order_root(
                price_exponent,
                qty_exponent,
                qty_mantissa,
                price_mantissa,
                side,
            );
            &&& r.len() == 76
            &&& r[20] == 0 && r[21] == 0
            &&& wire::i64_at(r, 22) == i64::MIN
            &&& r[30] == 0 && r[31] == 0
            &&& wire::u64_at(r, 32) == u64::MAX
            &&& r[40] == 255 && r[41] == 0 && r[42] == 255 && r[43] == 0
            &&& r[45] == 0
            &&& wire::i64_at(r, 46) == i64::MIN
            &&& wire::i64_at(r, 54) == i64::MIN
            &&& wire::i32_at(r, 62) == i32::MAX
            &&& wire::i64_at(r, 66) == i64::MIN
            &&& r[74] == 0 && r[75] == 255
        }),
{
    broadcast use place::group_stands;

    let r = encode::new_order_root(
        price_exponent,
        qty_exponent,
        qty_mantissa,
        price_mantissa,
        side,
    );
    assert(r.subrange(0, r.len() as int) =~= r);
    assert(place::stands(r, 0, r));
    place::law_twos_complement(0, i32::MAX, i64::MIN);
}

/// An OrderCancelRequest can be read back from its frame: the order's id, the client
/// ids of the cancel and of the order, and the symbol; the list's fields are absent.
pub proof fn law_order_cancel_reads_back(
    seq_num: u32,
    sending_time: i64,
    order_id: i64,
    cl_ord_id: Seq<u8>,
    orig_cl_ord_id: Seq<u8>,
    symbol: Seq<u8>,
    rest: Seq<u8>,
)
    requires
        cl_ord_id.len() <= 255,
        orig_cl_ord_id.len() <= 255,
        symbol.len() <= 255,
    ensures
        ({
            let body = encode::order_cancel_body(
                encode::order_cancel_root(order_id),
                cl_ord_id,
                orig_cl_ord_id,
                symbol,
            );
            let s = encoder::frame_of(101, 17, seq_num, sending_time, body) + rest;
            let p1 = 44int + cl_ord_id.len();
            let p2 = p1 + 1 + orig_cl_ord_id.len();
            &&& wire::i64_at(s, 26) == order_id
            &&& wire::i64_at(s, 34) == i64::MIN
            &&& s[42] == 255
            &&& wire::var8_at(s, 43) == Some((cl_ord_id, p1))
            &&& wire::var8_at(s, p1) == Some((orig_cl_ord_id, p2))
            &&& wire::var8_at(s, p2) == Some((Seq::<u8>::empty(), p2 + 1))
            &&& wire::var8_at(s, p2 + 1) == Some((symbol, p2 + 2 + symbol.len()))
        }),
{
    broadcast use place::group_stands;

    let root = encode::order_cancel_root(order_id);
    let body = encode::order_cancel_body(root, cl_ord_id, orig_cl_ord_id, symbol);
    let s = encoder::frame_of(101, 17, seq_num, sending_time, body) + rest;
    lemma_body_stands(101, 17, seq_num, sending_time, body, rest);
    assert(place::stands(s, 26, root));
    place::law_twos_complement(0, 0, order_id);
    place::law_twos_complement(0, 0, i64::MIN);
}

/// The fixed fields of a Logon can be read back from its frame, whatever strings it
/// carries: the heartbeat interval, the reset flag, the modes, with the null value
/// where there is none, and the window.
pub proof fn law_logon_root_reads_back(
    seq_num: u32,
    sending_time: i64,
    heart_bt_int_sec: u32,
    reset_seq: bool,
    msg_handling: u8,
    response_mode: Option<u8>,
    exec_report_type: Option<u8>,
    recv_window_us: u32,
    strings: Seq<u8>,
)
    ensures
        ({
            let root = encode::logon_root(
                heart_bt_int_sec,
                reset_seq,
                msg_handling,
                response_mode,
                exec_report_type,
                recv_window_us,
            );
            let s = encoder::frame_of(20008, 14, seq_num, sending_time, root + strings);
            &&& root.len() == 14
            &&& s[26] == 0
            &&& wire::u32_at(s, 27) == heart_bt_int_sec
            &&& reset_seq ==> s[31] == 1
            &&& !reset_seq ==> s[31] == 0
            &&& s[32] == msg_handling
            &&& response_mode matches Some(m) ==> s[33] == m
            &&& response_mode is None ==> s[33] == 255
            &&& exec_report_type matches Some(m) ==> s[34] == m
            &&& exec_report_type is None ==> s[34] == 255
            &&& s[35] == 255
            &&& wire::u32_at(s, 36) == recv_window_us
        }),
{
    broadcast use place::group_stands;

    let root = encode::logon_root(
        heart_bt_int_sec,
        reset_seq,
        msg_handling,
        response_mode,
        exec_report_type,
        recv_window_us,
    );
    let s = encoder::frame_of(20008, 14, seq_num, sending_time, root + strings);
    lemma_body_stands(20008, 14, seq_num, sending_time, root + strings, Seq::empty());
    assert(s + Seq::<u8>::empty() =~= s);
    assert(place::stands(s, 26, root));
}

/// The strings of a Logon can be read back from its frame, behind its 14 fixed bytes:
/// the two ids of the session, the signature and the user name.
pub proof fn law_logon_strings_read_back(
    seq_num: u32,
    sending_time: i64,
    root: Seq<u8>,
    sender_comp_id: Seq<u8>,
    target_comp_id: Seq<u8>,
    raw_data: Seq<u8>,
    username: Seq<u8>,
    rest: Seq<u8>,
)
    requires
        root.len() == 14,
        sender_comp_id.len() <= 255,
        target_comp_id.len() <= 255,
        raw_data.len() <= 65_535,
        username.len() <= 65_535,
    ensures
        ({
            let body = encode::logon_body(
                root,
                sender_comp_id,
                target_comp_id,
                raw_data,
                username,
            );
            let s = encoder::frame_of(20008, 14, seq_num, sending_time, body) + rest;
            let p1 = 41int + sender_comp_id.len();
            let p2 = p1 + 1 + target_comp_id.len();
            let p3 = p2 + 2 + raw_data.len();
            &&& s.subrange(26, 40) == root
            &&& wire::var8_at(s, 40) == Some((sender_comp_id, p1))
            &&& wire::var8_at(s, p1) == Some((target_comp_id, p2))
            &&& wire::var16_at(s, p2) == Some((raw_data, p3))
            &&& wire::var16_at(s, p3) == Some((username, p3 + 2 + username.len()))
        }),
{
    broadcast use place::group_stands;

    let body = encode::logon_body(root, sender_comp_id, target_comp_id, raw_data, username);
    let s = encoder::frame_of(20008, 14, seq_num, sending_time, body) + rest;
    lemma_body_stands(20008, 14, seq_num, sending_time, body, rest);
    assert(place::stands(s, 26, root));
}

/// A MarketDataRequest has four fixed bytes.
proof fn lemma_request_root_len(
    subscribe: bool,
    market_depth: Option<u16>,
    aggregated_book: Option<bool>,
)
    ensures
        encode::market_data_request_root(subscribe, market_depth, aggregated_book).len() == 4,
{
    let depth = match market_depth {
        Some(d) => d,
        None => 65_535,
    };
    wire::lemma_le_bytes_len(depth as nat, 2);
}

/// The fixed fields of a MarketDataRequest.
proof fn lemma_request_root(
    s: Seq<u8>,
    subscribe: bool,
    market_depth: Option<u16>,
    aggregated_book: Option<bool>,
)
    requires
        place::stands(
            s,
            26,
            encode::market_data_request_root(subscribe, market_depth, aggregated_book),
        ),
    ensures
        subscribe ==> s[26] == 0x31,
        !subscribe ==> s[26] == 0x32,
        market_depth matches Some(d) ==> wire::u16_at(s, 27) == d,
        market_depth is None ==> wire::u16_at(s, 27) == 65_535,
        aggregated_book == Some(true) ==> s[29] == 1,
        aggregated_book == Some(false) ==> s[29] == 0,
        aggregated_book is None ==> s[29] == 255,
{
    broadcast use place::group_stands;

    let depth = match market_depth {
        Some(d) => d,
        None => 65_535,
    };
    wire::lemma_le_bytes_len(depth as nat, 2);
}

/// The lists of a MarketDataRequest, behind its four fixed bytes.
proof fn lemma_request_lists(
    s: Seq<u8>,
    root: Seq<u8>,
    symbol: Seq<u8>,
    md_entry_types: Seq<u8>,
    md_req_id: Seq<u8>,
)
    requires
        root.len() == 4,
        symbol.len() <= 255,
        md_entry_types.len() <= 255,
        md_req_id.len() <= 255,
        place::stands(
            s,
            26,
            encode::market_data_request_body(root, symbol, md_entry_types, md_req_id),
        ),
    ensures
        ({
            let p1 = 35int + symbol.len();
            let p2 = p1 + 2 + md_entry_types.len();
            &&& place::stands(s, 26, root)
            &&& wire::u16_at(s, 30) == 0
            &&& wire::u16_at(s, 32) == 1
            &&& wire::var8_at(s, 34) == Some((symbol, p1))
            &&& s[p1] == 1
            &&& s[p1 + 1] == md_entry_types.len()
            &&& s.subrange(p1 + 2, p2) == md_entry_types
            &&& wire::var8_at(s, p2) == Some((md_req_id, p2 + 1 + md_req_id.len()))
        }),
{
    broadcast use place::group_stands;

    wire::lemma_le_bytes_len(0, 2);
    wire::lemma_le_bytes_len(1, 2);
    let p1 = 35int + symbol.len();
    assert(place::stands(s, p1 + 2, md_entry_types));
}

/// A MarketDataRequest can be read back from its frame: whether it subscribes, the
/// depth and the aggregation, with the null values where there are none, its one
/// symbol, every entry type in order, and the id of the request.
pub proof fn law_market_data_request_reads_back(
    seq_num: u32,
    sending_time: i64,
    subscribe: bool,
    market_depth: Option<u16>,
    aggregated_book: Option<bool>,
    symbol: Seq<u8>,
    md_entry_types: Seq<u8>,
    md_req_id: Seq<u8>,
    rest: Seq<u8>,
)
    requires
        symbol.len() <= 255,
        md_entry_types.len() <= 255,
        md_req_id.len() <= 255,
    ensures
        ({
            let body = encode::market_data_request_body(
                encode::market_data_request_root(subscribe, market_depth, aggregated_book),
                symbol,
                md_entry_types,
                md_req_id,
            );
            let s = encoder::frame_of(202, 4, seq_num, sending_time, body) + rest;
            let p1 = 35int + symbol.len();
            let p2 = p1 + 2 + md_entry_types.len();
            &&& subscribe ==> s[26] == 0x31
            &&& !subscribe ==> s[26] == 0x32
            &&& market_depth matches Some(d) ==> wire::u16_at(s, 27) == d
            &&& market_depth is None ==> wire::u16_at(s, 27) == 65_535
            &&& aggregated_book == Some(true) ==> s[29] == 1
            &&& aggregated_book == Some(false) ==> s[29] == 0
            &&& aggregated_book is None ==> s[29] == 255
            &&& wire::u16_at(s, 30) == 0
            &&& wire::u16_at(s, 32) == 1
            &&& wire::var8_at(s, 34) == Some((symbol, p1))
            &&& s[p1] == 1
            &&& s[p1 + 1] == md_entry_types.len()
            &&& s.subrange(p1 + 2, p2) == md_entry_types
            &&& wire::var8_at(s, p2) == Some((md_req_id, p2 + 1 + md_req_id.len()))
        }),
{
    let root = encode::market_data_request_root(subscribe, market_depth, aggregated_book);
    let body = encode::market_data_request_body(root, symbol, md_entry_types, md_req_id);
    let s = encoder::frame_of(202, 4, seq_num, sending_time, body) + rest;
    lemma_body_stands(202, 4, seq_num, sending_time, body, rest);
    lemma_request_root_len(subscribe, market_depth, aggregated_book);
    lemma_request_lists(s, root, symbol, md_entry_types, md_req_id);
    lemma_request_root(s, subscribe, market_depth, aggregated_book);
}

/// A MarketDataRequest is as long as its lists make it, and fits in a frame.
pub proof fn law_request_fits(
    subscribe: bool,
    market_depth: Option<u16>,
    aggregated_book: Option<bool>,
    symbol: Seq<u8>,
    md_entry_types: Seq<u8>,
    md_req_id: Seq<u8>,
)
    requires
        symbol.len() <= 255,
        md_entry_types.len() <= 255,
        md_req_id.len() <= 255,
    ensures
        encode::market_data_request_body(
            encode::market_data_request_root(subscribe, market_depth, aggregated_book),
            symbol,
            md_entry_types,
            md_req_id,
        ).len() == 12 + symbol.len() + md_entry_types.len() + md_req_id.len(),
{
    lemma_request_root_len(subscribe, market_depth, aggregated_book);
    wire::lemma_le_bytes_len(0, 2);
    wire::lemma_le_bytes_len(1, 2);
    wire::lemma_le_bytes_len(symbol.len(), 1);
    wire::lemma_le_bytes_len(md_req_id.len(), 1);
}

/// A Heartbeat, a TestRequest and a Logout carry their string and nothing else.
pub proof fn law_strings_read_back(
    template_id: u16,
    seq_num: u32,
    sending_time: i64,
    text: Seq<u8>,
    rest: Seq<u8>,
)
    ensures
        text.len() <= 255 ==> wire::var8_at(
            encoder::frame_of(template_id, 0, seq_num, sending_time, wire::var8_bytes(text)) + rest,
            26,
        ) == Some((text, (27 + text.len()) as int)),
        text.len() <= 65_535 ==> wire::var16_at(
            encoder::frame_of(template_id, 0, seq_num, sending_time, wire::var16_bytes(text))
                + rest,
            26,
        ) == Some((text, (28 + text.len()) as int)),
{
    broadcast use place::group_stands;

    lemma_body_stands(template_id, 0, seq_num, sending_time, wire::var8_bytes(text), rest);
    lemma_body_stands(template_id, 0, seq_num, sending_time, wire::var16_bytes(text), rest);
}

} // verus!
