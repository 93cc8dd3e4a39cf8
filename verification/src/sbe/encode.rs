//! Encoders of the messages that a session sends.
use crate::sbe::consts::{
    BOOL_FALSE, BOOL_TRUE, EXECINST_PARTICIPATE_DONT_INITIATE, FRAME_PREFIX, HEARTBEAT_BLOCK_LEN,
    LOGON_BLOCK_LEN, LOGOUT_BLOCK_LEN, MARKET_DATA_REQUEST_BLOCK_LEN,
    MD_ENTRY_TYPES_GROUP_BLOCK_LEN, NEW_ORDER_SINGLE_BLOCK_LEN, NULL_CHAR, NULL_I32, NULL_I64,
    NULL_U16, NULL_U8, ORDER_CANCEL_REQUEST_BLOCK_LEN, ORDTYPE_LIMIT, RELATED_SYM_GROUP_BLOCK_LEN,
    SUBREQ_SUBSCRIBE, SUBREQ_UNSUBSCRIBE, TEST_REQUEST_BLOCK_LEN,
};
use crate::sbe::decode;
use crate::sbe::encoder;
use crate::sbe::encoder::Encoder;
use crate::sbe::frame;
use crate::sbe::tid;
use crate::sbe::wire;
use vstd::prelude::*;

verus! {

/// A `bool` as a boolEnum.
pub open spec fn bool_byte(b: bool) -> u8 {
    if b {
        BOOL_TRUE
    } else {
        BOOL_FALSE
    }
}

/// An optional byte, with the null value where it is absent.
pub open spec fn optional_byte(v: Option<u8>) -> u8 {
    match v {
        Some(b) => b,
        None => NULL_U8,
    }
}

/// Root block of Logon.
pub open spec fn logon_root(
    heart_bt_int_sec: u32,
    reset_seq: bool,
    msg_handling: u8,
    response_mode: Option<u8>,
    exec_report_type: Option<u8>,
    recv_window_us: u32,
) -> Seq<u8> {
    seq![0u8]  // EncryptMethod: none
     + wire::le_bytes(heart_bt_int_sec as nat, 4)  // HeartBtInt
     + seq![bool_byte(reset_seq)]  // ResetSeqNumFlag
     + seq![msg_handling]  // MessageHandling
     + seq![optional_byte(response_mode)]  // ResponseMode
     + seq![optional_byte(exec_report_type)]  // ExecutionReportType
     + seq![NULL_U8]  // DropCopyFlag: absent
     + wire::le_bytes(recv_window_us as nat, 4)  // RecvWindow

}

/// Logon behind the frame header.
pub open spec fn logon_body(
    root: Seq<u8>,
    sender_comp_id: Seq<u8>,
    target_comp_id: Seq<u8>,
    raw_data: Seq<u8>,
    username: Seq<u8>,
) -> Seq<u8> {
    root + wire::var8_bytes(sender_comp_id) + wire::var8_bytes(target_comp_id) + wire::var16_bytes(
        raw_data,
    ) + wire::var16_bytes(username)
}

/// Logon. `raw_data` is the base64 text of the signature; `recv_window_us`, in
/// microseconds, holds for the whole session.
pub fn encode_logon(
    seq_num: u32,
    sending_time: i64,
    heart_bt_int_sec: u32,
    reset_seq: bool,
    msg_handling: u8,
    response_mode: Option<u8>,
    exec_report_type: Option<u8>,
    recv_window_us: u32,
    sender_comp_id: &[u8],
    target_comp_id: &[u8],
    raw_data: &[u8],
    username: &[u8],
) -> (out: Vec<u8>)
    requires
        sender_comp_id@.len() <= u8::MAX,
        target_comp_id@.len() <= u8::MAX,
        raw_data@.len() <= u16::MAX,
        username@.len() <= u16::MAX,
    ensures
        out@ == encoder::frame_of(
            tid::LOGON,
            LOGON_BLOCK_LEN,
            seq_num,
            sending_time,
            logon_body(
                logon_root(
                    heart_bt_int_sec,
                    reset_seq,
                    msg_handling,
                    response_mode,
                    exec_report_type,
                    recv_window_us,
                ),
                sender_comp_id@,
                target_comp_id@,
                raw_data@,
                username@,
            ),
        ),
{
    let mut e = Encoder::start(tid::LOGON, LOGON_BLOCK_LEN, seq_num, sending_time);
    e.u8(0);
    assert(e.body() =~= seq![0u8]);
    e.u32(heart_bt_int_sec);
    e.u8(if reset_seq { BOOL_TRUE } else { BOOL_FALSE });
    e.u8(msg_handling);
    e.u8(response_mode.unwrap_or(NULL_U8));
    e.u8(exec_report_type.unwrap_or(NULL_U8));
    e.u8(NULL_U8);
    e.u32(recv_window_us);
    e.var8(sender_comp_id);
    e.var8(target_comp_id);
    e.var16(raw_data);
    e.var16(username);
    proof {
        encoder::law_finished_encoder_is_frame(
            e,
            tid::LOGON,
            LOGON_BLOCK_LEN,
            seq_num,
            sending_time,
        );
    }
    e.finish()
}

/// Root block of MarketDataRequest.
pub open spec fn market_data_request_root(
    subscribe: bool,
    market_depth: Option<u16>,
    aggregated_book: Option<bool>,
) -> Seq<u8> {
    seq![if subscribe { SUBREQ_SUBSCRIBE } else { SUBREQ_UNSUBSCRIBE }]  // SubscriptionRequestType
     + wire::le_bytes(
        (match market_depth {
            Some(d) => d,
            None => NULL_U16,
        }) as nat,
        2,
    )  // MarketDepth
     + seq![
        match aggregated_book {
            Some(b) => bool_byte(b),
            None => NULL_U8,
        },
    ]  // AggregatedBook

}

/// MarketDataRequest behind the frame header: root block, a RelatedSym group
/// of one symbol, an MDEntryTypes group, MDReqID. The number of MDEntryTypes
/// takes one byte, of which more than 255 entries overflow.
pub open spec fn market_data_request_body(
    root: Seq<u8>,
    symbol: Seq<u8>,
    md_entry_types: Seq<u8>,
    md_req_id: Seq<u8>,
) -> Seq<u8> {
    root + (wire::le_bytes(RELATED_SYM_GROUP_BLOCK_LEN as nat, 2) + wire::le_bytes(1, 2))
        + wire::var8_bytes(symbol) + (seq![MD_ENTRY_TYPES_GROUP_BLOCK_LEN] + seq![
        (md_entry_types.len() % 256) as u8,
    ]) + md_entry_types + wire::var8_bytes(md_req_id)
}

/// MarketDataRequest for one symbol and a set of MDEntryTypes.
pub fn encode_market_data_request(
    seq_num: u32,
    sending_time: i64,
    subscribe: bool,
    market_depth: Option<u16>,
    aggregated_book: Option<bool>,
    symbol: &[u8],
    md_entry_types: &[u8],
    md_req_id: &[u8],
) -> (out: Vec<u8>)
    requires
        symbol@.len() <= u8::MAX,
        md_req_id@.len() <= u8::MAX,
    ensures
        out@ == encoder::frame_of(
            tid::MARKET_DATA_REQUEST,
            MARKET_DATA_REQUEST_BLOCK_LEN,
            seq_num,
            sending_time,
            market_data_request_body(
                market_data_request_root(subscribe, market_depth, aggregated_book),
                symbol@,
                md_entry_types@,
                md_req_id@,
            ),
        ),
{
    let mut e = Encoder::start(
        tid::MARKET_DATA_REQUEST,
        MARKET_DATA_REQUEST_BLOCK_LEN,
        seq_num,
        sending_time,
    );
    let ghost head = e.head();
    let subscription: u8 = if subscribe {
        SUBREQ_SUBSCRIBE
    } else {
        SUBREQ_UNSUBSCRIBE
    };
    e.u8(subscription);
    assert(e.body() =~= seq![subscription]);
    e.u16(market_depth.unwrap_or(NULL_U16));
    e.u8(
        match aggregated_book {
            Some(true) => BOOL_TRUE,
            Some(false) => BOOL_FALSE,
            None => NULL_U8,
        },
    );
    e.group_dim_16(RELATED_SYM_GROUP_BLOCK_LEN, 1);
    e.var8(symbol);
    e.group_dim_small8(MD_ENTRY_TYPES_GROUP_BLOCK_LEN, (md_entry_types.len() % 256) as u8);
    let ghost before = e.body();
    let mut i: usize = 0;
    assert(e.body() =~= before + md_entry_types@.take(0));
    while i < md_entry_types.len()
        invariant
            i <= md_entry_types@.len(),
            e.buf@.len() >= FRAME_PREFIX,
            e.head() == head,
            e.body() == before + md_entry_types@.take(i as int),
        decreases md_entry_types@.len() - i,
    {
        e.u8(md_entry_types[i]);
        i = i + 1;
        assert(e.body() =~= before + md_entry_types@.take(i as int));
    }
    assert(md_entry_types@.take(i as int) =~= md_entry_types@);
    e.var8(md_req_id);
    proof {
        encoder::law_finished_encoder_is_frame(
            e,
            tid::MARKET_DATA_REQUEST,
            MARKET_DATA_REQUEST_BLOCK_LEN,
            seq_num,
            sending_time,
        );
    }
    e.finish()
}

/// Root block of a NewOrderSingle that is a post-only limit order; the
/// TimeInForce is absent, since such an order takes none.
pub open spec fn new_order_root(
    price_exponent: i8,
    qty_exponent: i8,
    qty_mantissa: i64,
    price_mantissa: i64,
    side: u8,
) -> Seq<u8> {
    let null_i64 = wire::le_bytes(wire::twos64(NULL_I64) as nat, 8);
    seq![wire::twos8(price_exponent)]  // PriceExponent
     + seq![wire::twos8(qty_exponent)]  // QtyExponent
     + wire::le_bytes(wire::twos64(qty_mantissa) as nat, 8)  // OrderQty
     + seq![ORDTYPE_LIMIT]  // OrdType
     + seq![EXECINST_PARTICIPATE_DONT_INITIATE]  // ExecInst
     + wire::le_bytes(wire::twos64(price_mantissa) as nat, 8)  // Price
     + seq![NULL_CHAR]  // TriggerType
     + seq![NULL_CHAR]  // TriggerAction
     + null_i64  // TriggerPrice
     + seq![NULL_CHAR]  // TriggerPriceType
     + seq![NULL_CHAR]  // TriggerPriceDirection
     + wire::le_bytes(u64::MAX as nat, 8)  // TriggerTrailingDeltaBips
     + seq![NULL_U8]  // PegOffsetValue
     + seq![NULL_CHAR]  // PegPriceType
     + seq![NULL_U8]  // PegMoveType
     + seq![NULL_CHAR]  // PegOffsetType
     + seq![side]  // Side
     + seq![NULL_CHAR]  // TimeInForce
     + null_i64  // MaxFloor
     + null_i64  // CashOrderQty
     + wire::le_bytes(wire::twos32(NULL_I32) as nat, 4)  // TargetStrategy
     + null_i64  // StrategyID
     + seq![NULL_CHAR]  // SelfTradePreventionMode
     + seq![NULL_U8]  // SOR

}

/// NewOrderSingle behind the frame header.
pub open spec fn new_order_body(root: Seq<u8>, cl_ord_id: Seq<u8>, symbol: Seq<u8>) -> Seq<u8> {
    root + wire::var8_bytes(cl_ord_id) + wire::var8_bytes(symbol)
}

/// NewOrderSingle: a limit order that is refused rather than matched at once.
/// The decimal value of a mantissa is scaled by ten to its exponent.
pub fn encode_new_order_limit_postonly(
    seq_num: u32,
    sending_time: i64,
    price_exponent: i8,
    qty_exponent: i8,
    qty_mantissa: i64,
    price_mantissa: i64,
    side: u8,
    cl_ord_id: &[u8],
    symbol: &[u8],
) -> (out: Vec<u8>)
    requires
        cl_ord_id@.len() <= u8::MAX,
        symbol@.len() <= u8::MAX,
    ensures
        out@ == encoder::frame_of(
            tid::NEW_ORDER_SINGLE,
            NEW_ORDER_SINGLE_BLOCK_LEN,
            seq_num,
            sending_time,
            new_order_body(
                new_order_root(price_exponent, qty_exponent, qty_mantissa, price_mantissa, side),
                cl_ord_id@,
                symbol@,
            ),
        ),
{
    let mut e = Encoder::start(
        tid::NEW_ORDER_SINGLE,
        NEW_ORDER_SINGLE_BLOCK_LEN,
        seq_num,
        sending_time,
    );
    e.i8(price_exponent);
    assert(e.body() =~= seq![wire::twos8(price_exponent)]);
    e.i8(qty_exponent);
    e.i64(qty_mantissa);
    e.u8(ORDTYPE_LIMIT);
    e.u8(EXECINST_PARTICIPATE_DONT_INITIATE);
    e.i64(price_mantissa);
    e.u8(NULL_CHAR);
    e.u8(NULL_CHAR);
    e.i64(NULL_I64);
    e.u8(NULL_CHAR);
    e.u8(NULL_CHAR);
    e.u64(u64::MAX);
    e.u8(NULL_U8);
    e.u8(NULL_CHAR);
    e.u8(NULL_U8);
    e.u8(NULL_CHAR);
    e.u8(side);
    e.u8(NULL_CHAR);
    e.i64(NULL_I64);
    e.i64(NULL_I64);
    e.i32(NULL_I32);
    e.i64(NULL_I64);
    e.u8(NULL_CHAR);
    e.u8(NULL_U8);
    e.var8(cl_ord_id);
    e.var8(symbol);
    proof {
        encoder::law_finished_encoder_is_frame(
            e,
            tid::NEW_ORDER_SINGLE,
            NEW_ORDER_SINGLE_BLOCK_LEN,
            seq_num,
            sending_time,
        );
    }
    e.finish()
}

/// Root block of OrderCancelRequest.
pub open spec fn order_cancel_root(order_id: i64) -> Seq<u8> {
    wire::le_bytes(wire::twos64(order_id) as nat, 8)  // OrderID
     + wire::le_bytes(wire::twos64(NULL_I64) as nat, 8)  // ListID
     + seq![NULL_U8]  // CancelRestrictions

}

/// OrderCancelRequest behind the frame header; OrigClListID is absent.
pub open spec fn order_cancel_body(
    root: Seq<u8>,
    cl_ord_id: Seq<u8>,
    orig_cl_ord_id: Seq<u8>,
    symbol: Seq<u8>,
) -> Seq<u8> {
    root + wire::var8_bytes(cl_ord_id) + wire::var8_bytes(orig_cl_ord_id) + wire::var8_bytes(
        Seq::empty(),
    ) + wire::var8_bytes(symbol)
}

/// OrderCancelRequest, by OrderID or, with `order_id == NULL_I64`, by the
/// client's own id in `orig_cl_ord_id`.
pub fn encode_order_cancel(
    seq_num: u32,
    sending_time: i64,
    order_id: i64,
    cl_ord_id: &[u8],
    orig_cl_ord_id: &[u8],
    symbol: &[u8],
) -> (out: Vec<u8>)
    requires
        cl_ord_id@.len() <= u8::MAX,
        orig_cl_ord_id@.len() <= u8::MAX,
        symbol@.len() <= u8::MAX,
    ensures
        out@ == encoder::frame_of(
            tid::ORDER_CANCEL_REQUEST,
            ORDER_CANCEL_REQUEST_BLOCK_LEN,
            seq_num,
            sending_time,
            order_cancel_body(order_cancel_root(order_id), cl_ord_id@, orig_cl_ord_id@, symbol@),
        ),
{
    let mut e = Encoder::start(
        tid::ORDER_CANCEL_REQUEST,
        ORDER_CANCEL_REQUEST_BLOCK_LEN,
        seq_num,
        sending_time,
    );
    e.i64(order_id);
    assert(e.body() =~= wire::le_bytes(wire::twos64(order_id) as nat, 8));
    e.i64(NULL_I64);
    e.u8(NULL_U8);
    e.var8(cl_ord_id);
    e.var8(orig_cl_ord_id);
    let none: [u8; 0] = [];
    e.var8(&none);
    assert(none@ =~= Seq::<u8>::empty());
    e.var8(symbol);
    proof {
        encoder::law_finished_encoder_is_frame(
            e,
            tid::ORDER_CANCEL_REQUEST,
            ORDER_CANCEL_REQUEST_BLOCK_LEN,
            seq_num,
            sending_time,
        );
    }
    e.finish()
}

/// Heartbeat. An empty `test_req_id` stands for none.
pub fn encode_heartbeat(seq_num: u32, sending_time: i64, test_req_id: &[u8]) -> (out: Vec<u8>)
    requires
        test_req_id@.len() <= u8::MAX,
    ensures
        out@ == encoder::frame_of(
            tid::HEARTBEAT,
            HEARTBEAT_BLOCK_LEN,
            seq_num,
            sending_time,
            wire::var8_bytes(test_req_id@),
        ),
{
    let mut e = Encoder::start(tid::HEARTBEAT, HEARTBEAT_BLOCK_LEN, seq_num, sending_time);
    e.var8(test_req_id);
    assert(e.body() =~= wire::var8_bytes(test_req_id@));
    proof {
        encoder::law_finished_encoder_is_frame(
            e,
            tid::HEARTBEAT,
            HEARTBEAT_BLOCK_LEN,
            seq_num,
            sending_time,
        );
    }
    e.finish()
}

/// TestRequest.
pub fn encode_test_request(seq_num: u32, sending_time: i64, test_req_id: &[u8]) -> (out: Vec<u8>)
    requires
        test_req_id@.len() <= u8::MAX,
    ensures
        out@ == encoder::frame_of(
            tid::TEST_REQUEST,
            TEST_REQUEST_BLOCK_LEN,
            seq_num,
            sending_time,
            wire::var8_bytes(test_req_id@),
        ),
{
    let mut e = Encoder::start(tid::TEST_REQUEST, TEST_REQUEST_BLOCK_LEN, seq_num, sending_time);
    e.var8(test_req_id);
    assert(e.body() =~= wire::var8_bytes(test_req_id@));
    proof {
        encoder::law_finished_encoder_is_frame(
            e,
            tid::TEST_REQUEST,
            TEST_REQUEST_BLOCK_LEN,
            seq_num,
            sending_time,
        );
    }
    e.finish()
}

/// Logout.
pub fn encode_logout(seq_num: u32, sending_time: i64, text: &[u8]) -> (out: Vec<u8>)
    requires
        text@.len() <= u16::MAX,
    ensures
        out@ == encoder::frame_of(
            tid::LOGOUT,
            LOGOUT_BLOCK_LEN,
            seq_num,
            sending_time,
            wire::var16_bytes(text@),
        ),
{
    let mut e = Encoder::start(tid::LOGOUT, LOGOUT_BLOCK_LEN, seq_num, sending_time);
    e.var16(text);
    assert(e.body() =~= wire::var16_bytes(text@));
    proof {
        encoder::law_finished_encoder_is_frame(
            e,
            tid::LOGOUT,
            LOGOUT_BLOCK_LEN,
            seq_num,
            sending_time,
        );
    }
    e.finish()
}

/// Each root block has the length that its frame declares.
pub proof fn law_root_blocks_have_declared_length(
    heart_bt_int_sec: u32,
    flag: bool,
    byte: u8,
    option_a: Option<u8>,
    option_b: Option<u8>,
    recv_window_us: u32,
    market_depth: Option<u16>,
    aggregated_book: Option<bool>,
    price_exponent: i8,
    qty_exponent: i8,
    mantissa_a: i64,
    mantissa_b: i64,
)
    ensures
        logon_root(heart_bt_int_sec, flag, byte, option_a, option_b, recv_window_us).len()
            == LOGON_BLOCK_LEN,
        market_data_request_root(flag, market_depth, aggregated_book).len()
            == MARKET_DATA_REQUEST_BLOCK_LEN,
        new_order_root(price_exponent, qty_exponent, mantissa_a, mantissa_b, byte).len()
            == NEW_ORDER_SINGLE_BLOCK_LEN,
        order_cancel_root(mantissa_a).len() == ORDER_CANCEL_REQUEST_BLOCK_LEN,
{
    broadcast use wire::lemma_le_bytes_len;

}

/// A TestRequest that was encoded decodes to its TestReqID, whatever follows
/// the frame; a Heartbeat carries the id in the same place.
pub proof fn law_test_request_round_trip(
    seq_num: u32,
    sending_time: i64,
    id: Seq<u8>,
    rest: Seq<u8>,
)
    requires
        id.len() <= u8::MAX,
    ensures
        ({
            let s = encoder::frame_of(
                tid::TEST_REQUEST,
                TEST_REQUEST_BLOCK_LEN,
                seq_num,
                sending_time,
                wire::var8_bytes(id),
            ) + rest;
            decode::test_request_spec(frame::header_of(s), s) == Some(id)
        }),
        ({
            let s = encoder::frame_of(
                tid::HEARTBEAT,
                HEARTBEAT_BLOCK_LEN,
                seq_num,
                sending_time,
                wire::var8_bytes(id),
            ) + rest;
            decode::test_request_spec(frame::header_of(s), s) == Some(id)
        }),
{
    lemma_var8_frame(tid::TEST_REQUEST, seq_num, sending_time, id, rest);
    lemma_var8_frame(tid::HEARTBEAT, seq_num, sending_time, id, rest);
}

proof fn lemma_var8_frame(
    template_id: u16,
    seq_num: u32,
    sending_time: i64,
    id: Seq<u8>,
    rest: Seq<u8>,
)
    requires
        id.len() <= u8::MAX,
    ensures
        ({
            let s = encoder::frame_of(template_id, 0, seq_num, sending_time, wire::var8_bytes(id))
                + rest;
            decode::test_request_spec(frame::header_of(s), s) == Some(id)
        }),
{
    broadcast use wire::lemma_le_bytes_len;

    let body = wire::var8_bytes(id);
    let s = encoder::frame_of(template_id, 0, seq_num, sending_time, body) + rest;
    encoder::law_frame_header_round_trip(template_id, 0, seq_num, sending_time, body, rest);
    encoder::lemma_frame_head_len(
        FRAME_PREFIX as nat + body.len(),
        template_id,
        0,
        seq_num,
        sending_time,
    );
    assert(s[FRAME_PREFIX as int] == id.len());
    assert(s.subrange(FRAME_PREFIX + 1, FRAME_PREFIX + 1 + id.len()) =~= id);
}

/// A Logout that was encoded decodes to its text, whatever follows the frame.
pub proof fn law_logout_round_trip(
    seq_num: u32,
    sending_time: i64,
    text: Seq<u8>,
    rest: Seq<u8>,
)
    requires
        text.len() <= u16::MAX,
    ensures
        ({
            let s = encoder::frame_of(
                tid::LOGOUT,
                LOGOUT_BLOCK_LEN,
                seq_num,
                sending_time,
                wire::var16_bytes(text),
            ) + rest;
            decode::logout_spec(frame::header_of(s), s) == Some(text)
        }),
{
    broadcast use wire::lemma_le_bytes_len;

    let body = wire::var16_bytes(text);
    let s = encoder::frame_of(tid::LOGOUT, LOGOUT_BLOCK_LEN, seq_num, sending_time, body) + rest;
    encoder::law_frame_header_round_trip(
        tid::LOGOUT,
        LOGOUT_BLOCK_LEN,
        seq_num,
        sending_time,
        body,
        rest,
    );
    encoder::lemma_frame_head_len(
        FRAME_PREFIX as nat + body.len(),
        tid::LOGOUT,
        LOGOUT_BLOCK_LEN,
        seq_num,
        sending_time,
    );
    wire::lemma_base256_widths();
    wire::lemma_le_at(s, FRAME_PREFIX as int, text.len(), 2);
    assert(s.subrange(FRAME_PREFIX + 2, FRAME_PREFIX + 2 + text.len()) =~= text);
}

} // verus!
