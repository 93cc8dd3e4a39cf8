//! Decoders of the session and order-entry messages.
use crate::sbe::consts::{BOOL_TRUE, FRAME_PREFIX};
use crate::sbe::frame::FrameHeader;
use crate::sbe::messages::{
    ExecutionReport, ExecutionReportAck, ExecutionReportAckView, ExecutionReportView, LogonAck,
    LogonAckView, MarketDataRequestReject, MarketDataRequestRejectView, OrderCancelRejectMsg,
    OrderCancelRejectView, RejectMsg, RejectView,
};
use crate::sbe::reader::Reader;
use crate::sbe::wire;
use vstd::prelude::*;
use vstd::slice::slice_to_vec;

verus! {

/// Fixed fields of an ExecutionReport: 281 bytes.
pub const EXECUTION_REPORT_ROOT_LEN: usize = 281;

/// The offset behind `num` MiscFees entries that start at `p`: each entry is
/// `block` fixed bytes and a currency behind a one-byte length.
pub open spec fn after_misc_fees(s: Seq<u8>, p: int, block: int, num: int) -> Option<int>
    decreases num,
{
    if num <= 0 {
        Some(p)
    } else if p + block > s.len() {
        None
    } else {
        match wire::var8_at(s, p + block) {
            None => None,
            Some((_, q)) => after_misc_fees(s, q, block, num - 1),
        }
    }
}

/// Where reading goes on behind an optional byte string at `p`: behind it if
/// it is complete, else behind what there is of its length.
pub open spec fn after_optional_var8(s: Seq<u8>, p: int) -> int {
    match wire::var8_at(s, p) {
        Some((_, q)) => q,
        None => if p < s.len() {
            p + 1
        } else {
            p
        },
    }
}

/// The variable-length fields of an ExecutionReport.
pub struct ExecutionReportVars {
    pub cl_ord_id: Seq<u8>,
    pub orig_cl_ord_id: Seq<u8>,
    pub symbol: Seq<u8>,
    pub error_text: Seq<u8>,
}

/// The variable-length fields behind the MiscFees group, from `p` on: ClOrdID,
/// OrigClOrdID and Symbol are due; SecondarySymbol, CounterSymbol and ErrorText
/// may be missing.
pub open spec fn execution_report_strings(s: Seq<u8>, p: int) -> Option<ExecutionReportVars> {
    match wire::var8_at(s, p) {
        None => None,
        Some((cl_ord_id, p1)) => match wire::var8_at(s, p1) {
            None => None,
            Some((orig_cl_ord_id, p2)) => match wire::var8_at(s, p2) {
                None => None,
                Some((symbol, p3)) => {
                    let p5 = after_optional_var8(s, after_optional_var8(s, p3));
                    let error_text = match wire::var16_at(s, p5) {
                        Some((t, _)) => t,
                        None => Seq::empty(),
                    };
                    Some(ExecutionReportVars { cl_ord_id, orig_cl_ord_id, symbol, error_text })
                },
            },
        },
    }
}

/// The groups and variable-length fields of an ExecutionReport, which start at `p`.
pub open spec fn execution_report_vars(s: Seq<u8>, p: int) -> Option<ExecutionReportVars> {
    if p + 3 > s.len() {
        None
    } else {
        match after_misc_fees(s, p + 3, s[p] as int, wire::u16_at(s, p + 1) as int) {
            None => None,
            Some(q) => execution_report_strings(s, q),
        }
    }
}

/// What an ExecutionReport frame holds.
pub open spec fn execution_report_spec(hdr: FrameHeader, s: Seq<u8>) -> Option<
    ExecutionReportView,
> {
    let r = FRAME_PREFIX as int;
    if r + EXECUTION_REPORT_ROOT_LEN > s.len() {
        None
    } else {
        match execution_report_vars(s, hdr.after_root_spec()) {
            None => None,
            Some(v) => Some(
                ExecutionReportView {
                    price_exponent: wire::i8_at(s, r),
                    qty_exponent: wire::i8_at(s, r + 1),
                    exec_id: wire::i64_at(s, r + 2),
                    order_id: wire::i64_at(s, r + 10),
                    order_qty: wire::i64_at(s, r + 18),
                    ord_type: s[r + 26],
                    side: s[r + 27],
                    price: wire::i64_at(s, r + 29),
                    transact_time: wire::i64_at(s, r + 70),
                    exec_type: s[r + 124],
                    cum_qty: wire::i64_at(s, r + 125),
                    leaves_qty: wire::i64_at(s, r + 133),
                    cum_quote_qty: wire::i64_at(s, r + 141),
                    trade_id: wire::i64_at(s, r + 150),
                    last_px: wire::i64_at(s, r + 158),
                    last_qty: wire::i64_at(s, r + 166),
                    ord_status: s[r + 174],
                    error_code: wire::i32_at(s, r + 276),
                    cl_ord_id: v.cl_ord_id,
                    orig_cl_ord_id: v.orig_cl_ord_id,
                    symbol: v.symbol,
                    error_text: v.error_text,
                },
            ),
        }
    }
}

/// Moves behind `num` MiscFees entries of `block` fixed bytes.
fn skip_misc_fees(g: &mut Reader, block: usize, num: usize) -> (res: Option<()>)
    ensures
        final(g).buf == old(g).buf,
        match res {
            Some(_) => after_misc_fees(
                old(g).buf@,
                old(g).pos as int,
                block as int,
                num as int,
            ) == Some(final(g).pos as int),
            None => after_misc_fees(
                old(g).buf@,
                old(g).pos as int,
                block as int,
                num as int,
            ) is None,
        },
{
    let mut left: usize = num;
    while left > 0
        invariant
            g.buf == old(g).buf,
            after_misc_fees(old(g).buf@, old(g).pos as int, block as int, num as int)
                == after_misc_fees(g.buf@, g.pos as int, block as int, left as int),
        decreases left,
    {
        g.skip(block)?;
        let _curr = g.var8()?;
        left = left - 1;
    }
    Some(())
}

/// Decodes an ExecutionReport frame (template 98).
///
/// The root block is read strictly in schema order; the MiscFees group behind
/// it is skipped by its dimension header.
pub fn decode_execution_report(hdr: &FrameHeader, body: &[u8]) -> (res: Option<ExecutionReport>)
    ensures
        match res {
            Some(er) => execution_report_spec(*hdr, body@) == Some(er@),
            None => execution_report_spec(*hdr, body@) is None,
        },
{
    let mut r = Reader::at(body, hdr.root_offset());
    let price_exponent = r.i8()?;  // 25054
    let qty_exponent = r.i8()?;  // 25055
    let exec_id = r.i64()?;  // 17 opt
    let order_id = r.i64()?;  // 37 opt
    let order_qty = r.i64()?;  // 38 opt
    let ord_type = r.u8()?;  // 40
    let side = r.u8()?;  // 54
    let _exec_inst = r.u8()?;  // 18 opt
    let price = r.i64()?;  // 44 opt
    let _trigger_type = r.u8()?;  // 1100 opt
    let _trigger_action = r.u8()?;  // 1101 opt
    let _trigger_price = r.i64()?;  // 1102 opt
    let _trigger_price_type = r.u8()?;  // 1107 opt
    let _trigger_price_dir = r.u8()?;  // 1109 opt
    let _trigger_trail = r.u64()?;  // 25009 opt
    let _peg_offset_value = r.u8()?;  // 211 opt
    let _peg_price_type = r.u8()?;  // 1094 opt
    let _peg_move_type = r.u8()?;  // 835 opt
    let _peg_offset_type = r.u8()?;  // 836 opt
    let _pegged_price = r.i64()?;  // 839 opt
    let _time_in_force = r.u8()?;  // 59 opt
    let transact_time = r.i64()?;  // 60 opt
    let _order_creation_time = r.i64()?;  // 25018 opt
    let _max_floor = r.i64()?;  // 111 opt
    let _list_id = r.i64()?;  // 66 opt
    let _cash_order_qty = r.i64()?;  // 152 opt
    let _target_strategy = r.i32()?;  // 847 opt
    let _strategy_id = r.i64()?;  // 7940 opt
    let _order_capacity = r.u8()?;  // 528 opt
    let _stp_mode = r.u8()?;  // 25001 opt
    let exec_type = r.u8()?;  // 150
    let cum_qty = r.i64()?;  // 14
    let leaves_qty = r.i64()?;  // 151 opt
    let cum_quote_qty = r.i64()?;  // 25017 opt
    let _aggressor_indicator = r.u8()?;  // 1057 opt
    let trade_id = r.i64()?;  // 1003 opt
    let last_px = r.i64()?;  // 31 opt
    let last_qty = r.i64()?;  // 32
    let ord_status = r.u8()?;  // 39
    let _secondary_order_id = r.i64()?;  // 198 opt
    let _secondary_ext_acct = r.i64()?;  // 25020 opt
    let _alloc_id = r.i64()?;  // 70 opt
    let _match_type = r.u8()?;  // 574 opt
    let _working_floor = r.u8()?;  // 25021 opt
    let _working_indicator = r.u8()?;  // 636 opt
    let _working_time = r.i64()?;  // 25023 opt
    let _trailing_time = r.i64()?;  // 25022 opt
    let _prevented_match_id = r.i64()?;  // 25024 opt
    let _prevented_exec_price = r.i64()?;  // 25025 opt
    let _prevented_exec_qty = r.i64()?;  // 25026 opt
    let _trade_group_id = r.i64()?;  // 25027 opt
    let _counter_order_id = r.i64()?;  // 25029 opt
    let _prevented_qty = r.i64()?;  // 25030 opt
    let _last_prevented_qty = r.i64()?;  // 25031 opt
    let _sor = r.u8()?;  // 25032 opt
    let _ord_rej_reason = r.u8()?;  // 103 opt
    let error_code = r.i32()?;  // 25016 opt
    let _expiry_reason = r.u8()?;  // 25056 opt (since version 1)

    let mut g = Reader::at(body, hdr.after_root());
    // MiscFees (136): u8 blockLength, u16 numInGroup.
    let fee_block = g.u8()?;
    let fee_num = g.u16()?;
    skip_misc_fees(&mut g, fee_block as usize, fee_num as usize)?;
    let cl_ord_id = g.var8()?;
    let orig_cl_ord_id = g.var8()?;
    let symbol = g.var8()?;
    let _secondary_symbol = g.var8();
    let _counter_symbol = g.var8();
    let error_text: Vec<u8> = match g.var16() {
        Some(t) => slice_to_vec(t),
        None => Vec::new(),
    };
    Some(
        ExecutionReport {
            price_exponent,
            qty_exponent,
            exec_id,
            order_id,
            order_qty,
            ord_type,
            side,
            price,
            transact_time,
            exec_type,
            cum_qty,
            leaves_qty,
            cum_quote_qty,
            trade_id,
            last_px,
            last_qty,
            ord_status,
            error_code,
            cl_ord_id: slice_to_vec(cl_ord_id),
            orig_cl_ord_id: slice_to_vec(orig_cl_ord_id),
            symbol: slice_to_vec(symbol),
            error_text,
        },
    )
}

/// What a LogonAck frame holds: EncryptMethod u8, HeartBtInt u32,
/// SbeSchemaIdVersionDeprecated bool; then UUID.
pub open spec fn logon_ack_spec(hdr: FrameHeader, s: Seq<u8>) -> Option<LogonAckView> {
    let r = FRAME_PREFIX as int;
    if r + 6 > s.len() {
        None
    } else {
        match wire::var8_at(s, hdr.after_root_spec()) {
            None => None,
            Some((uuid, _)) => Some(
                LogonAckView {
                    heart_bt_int: wire::u32_at(s, r + 1),
                    schema_deprecated: s[r + 5] == BOOL_TRUE,
                    uuid,
                },
            ),
        }
    }
}

/// Decodes a LogonAck frame (template 20009).
pub fn decode_logon_ack(hdr: &FrameHeader, body: &[u8]) -> (res: Option<LogonAck>)
    ensures
        match res {
            Some(a) => logon_ack_spec(*hdr, body@) == Some(a@),
            None => logon_ack_spec(*hdr, body@) is None,
        },
{
    let mut r = Reader::at(body, hdr.root_offset());
    let _encrypt = r.u8()?;
    let heart_bt_int = r.u32()?;
    let deprecated = r.u8()?;
    // The root block may hold fields that this schema version does not know.
    let mut g = Reader::at(body, hdr.after_root());
    let uuid = g.var8()?;
    Some(
        LogonAck {
            heart_bt_int,
            schema_deprecated: deprecated == BOOL_TRUE,
            uuid: slice_to_vec(uuid),
        },
    )
}

/// What an ExecutionReportAck frame holds: OrderID i64, ListID i64,
/// TransactTime i64, ExecType, OrdStatus, OrdRejReason, ErrorCode i32; then
/// ClOrdID and Symbol.
pub open spec fn execution_report_ack_spec(hdr: FrameHeader, s: Seq<u8>) -> Option<
    ExecutionReportAckView,
> {
    let r = FRAME_PREFIX as int;
    if r + 31 > s.len() {
        None
    } else {
        match wire::var8_at(s, hdr.after_root_spec()) {
            None => None,
            Some((cl_ord_id, p1)) => match wire::var8_at(s, p1) {
                None => None,
                Some((symbol, _)) => Some(
                    ExecutionReportAckView {
                        order_id: wire::i64_at(s, r),
                        transact_time: wire::i64_at(s, r + 16),
                        exec_type: s[r + 24],
                        ord_status: s[r + 25],
                        error_code: wire::i32_at(s, r + 27),
                        cl_ord_id,
                        symbol,
                    },
                ),
            },
        }
    }
}

/// Decodes an ExecutionReportAck frame (template 198).
pub fn decode_execution_report_ack(hdr: &FrameHeader, body: &[u8]) -> (res: Option<
    ExecutionReportAck,
>)
    ensures
        match res {
            Some(a) => execution_report_ack_spec(*hdr, body@) == Some(a@),
            None => execution_report_ack_spec(*hdr, body@) is None,
        },
{
    let mut r = Reader::at(body, hdr.root_offset());
    let order_id = r.i64()?;
    let _list_id = r.i64()?;
    let transact_time = r.i64()?;
    let exec_type = r.u8()?;
    let ord_status = r.u8()?;
    let _ord_rej_reason = r.u8()?;
    let error_code = r.i32()?;

    let mut g = Reader::at(body, hdr.after_root());
    let cl_ord_id = g.var8()?;
    let symbol = g.var8()?;
    Some(
        ExecutionReportAck {
            order_id,
            transact_time,
            exec_type,
            ord_status,
            error_code,
            cl_ord_id: slice_to_vec(cl_ord_id),
            symbol: slice_to_vec(symbol),
        },
    )
}

/// What an OrderCancelReject frame holds: OrderID i64, ListID i64,
/// CancelRestrictions, CxlRejResponseTo, ErrorCode i32; then ClOrdID,
/// OrigClOrdID, OrigClListID and Symbol.
pub open spec fn order_cancel_reject_spec(hdr: FrameHeader, s: Seq<u8>) -> Option<
    OrderCancelRejectView,
> {
    let r = FRAME_PREFIX as int;
    if r + 22 > s.len() {
        None
    } else {
        match wire::var8_at(s, hdr.after_root_spec()) {
            None => None,
            Some((cl_ord_id, p1)) => match wire::var8_at(s, p1) {
                None => None,
                Some((orig_cl_ord_id, p2)) => match wire::var8_at(s, p2) {
                    None => None,
                    Some((_, p3)) => match wire::var8_at(s, p3) {
                        None => None,
                        Some((symbol, _)) => Some(
                            OrderCancelRejectView {
                                order_id: wire::i64_at(s, r),
                                error_code: wire::i32_at(s, r + 18),
                                cl_ord_id,
                                orig_cl_ord_id,
                                symbol,
                            },
                        ),
                    },
                },
            },
        }
    }
}

/// Decodes an OrderCancelReject frame (template 96).
pub fn decode_order_cancel_reject(hdr: &FrameHeader, body: &[u8]) -> (res: Option<
    OrderCancelRejectMsg,
>)
    ensures
        match res {
            Some(m) => order_cancel_reject_spec(*hdr, body@) == Some(m@),
            None => order_cancel_reject_spec(*hdr, body@) is None,
        },
{
    let mut r = Reader::at(body, hdr.root_offset());
    let order_id = r.i64()?;
    let _list_id = r.i64()?;
    let _cancel_restrictions = r.u8()?;
    let _cxl_rej_response_to = r.u8()?;
    let error_code = r.i32()?;

    let mut g = Reader::at(body, hdr.after_root());
    let cl_ord_id = g.var8()?;
    let orig_cl_ord_id = g.var8()?;
    let _orig_cl_list_id = g.var8()?;
    let symbol = g.var8()?;
    Some(
        OrderCancelRejectMsg {
            order_id,
            error_code,
            cl_ord_id: slice_to_vec(cl_ord_id),
            orig_cl_ord_id: slice_to_vec(orig_cl_ord_id),
            symbol: slice_to_vec(symbol),
        },
    )
}

/// What a Reject frame holds: RefSeqNum u32, RefTagID u32, SessionRejectReason,
/// ErrorCode i32; then RefMsgType and Text.
pub open spec fn reject_spec(hdr: FrameHeader, s: Seq<u8>) -> Option<RejectView> {
    let r = FRAME_PREFIX as int;
    if r + 13 > s.len() {
        None
    } else {
        match wire::var8_at(s, hdr.after_root_spec()) {
            None => None,
            Some((_, p1)) => match wire::var16_at(s, p1) {
                None => None,
                Some((text, _)) => Some(
                    RejectView {
                        ref_seq_num: wire::u32_at(s, r),
                        ref_tag_id: wire::u32_at(s, r + 4),
                        session_reject_reason: s[r + 8],
                        error_code: wire::i32_at(s, r + 9),
                        text,
                    },
                ),
            },
        }
    }
}

/// Decodes a Reject frame (template 20003).
pub fn decode_reject(hdr: &FrameHeader, body: &[u8]) -> (res: Option<RejectMsg>)
    ensures
        match res {
            Some(m) => reject_spec(*hdr, body@) == Some(m@),
            None => reject_spec(*hdr, body@) is None,
        },
{
    let mut r = Reader::at(body, hdr.root_offset());
    let ref_seq_num = r.u32()?;
    let ref_tag_id = r.u32()?;
    let session_reject_reason = r.u8()?;
    let error_code = r.i32()?;

    let mut g = Reader::at(body, hdr.after_root());
    let _ref_msg_type = g.var8()?;
    let text = g.var16()?;
    Some(
        RejectMsg {
            ref_seq_num,
            ref_tag_id,
            session_reject_reason,
            error_code,
            text: slice_to_vec(text),
        },
    )
}

/// What a MarketDataRequestReject frame holds: MDReqRejReason, ErrorCode i32;
/// then MDReqID and Text.
pub open spec fn md_request_reject_spec(hdr: FrameHeader, s: Seq<u8>) -> Option<
    MarketDataRequestRejectView,
> {
    let r = FRAME_PREFIX as int;
    if r + 5 > s.len() {
        None
    } else {
        match wire::var8_at(s, hdr.after_root_spec()) {
            None => None,
            Some((md_req_id, p1)) => match wire::var16_at(s, p1) {
                None => None,
                Some((text, _)) => Some(
                    MarketDataRequestRejectView {
                        error_code: wire::i32_at(s, r + 1),
                        md_req_id,
                        text,
                    },
                ),
            },
        }
    }
}

/// Decodes a MarketDataRequestReject frame (template 203).
pub fn decode_md_request_reject(hdr: &FrameHeader, body: &[u8]) -> (res: Option<
    MarketDataRequestReject,
>)
    ensures
        match res {
            Some(m) => md_request_reject_spec(*hdr, body@) == Some(m@),
            None => md_request_reject_spec(*hdr, body@) is None,
        },
{
    let mut r = Reader::at(body, hdr.root_offset());
    let _reason = r.u8()?;
    let error_code = r.i32()?;
    let mut g = Reader::at(body, hdr.after_root());
    let md_req_id = g.var8()?;
    let text = g.var16()?;
    Some(
        MarketDataRequestReject {
            error_code,
            md_req_id: slice_to_vec(md_req_id),
            text: slice_to_vec(text),
        },
    )
}

/// The TestReqID of a TestRequest frame.
pub open spec fn test_request_spec(hdr: FrameHeader, s: Seq<u8>) -> Option<Seq<u8>> {
    match wire::var8_at(s, hdr.after_root_spec()) {
        None => None,
        Some((id, _)) => Some(id),
    }
}

/// Decodes the TestReqID of a TestRequest frame (template 20002).
pub fn decode_test_request(hdr: &FrameHeader, body: &[u8]) -> (res: Option<Vec<u8>>)
    ensures
        match res {
            Some(id) => test_request_spec(*hdr, body@) == Some(id@),
            None => test_request_spec(*hdr, body@) is None,
        },
{
    let mut g = Reader::at(body, hdr.after_root());
    let id = g.var8()?;
    Some(slice_to_vec(id))
}

/// The text of a Logout frame.
pub open spec fn logout_spec(hdr: FrameHeader, s: Seq<u8>) -> Option<Seq<u8>> {
    match wire::var16_at(s, hdr.after_root_spec()) {
        None => None,
        Some((text, _)) => Some(text),
    }
}

/// Decodes the text of a Logout frame (template 20004).
pub fn decode_logout(hdr: &FrameHeader, body: &[u8]) -> (res: Option<Vec<u8>>)
    ensures
        match res {
            Some(text) => logout_spec(*hdr, body@) == Some(text@),
            None => logout_spec(*hdr, body@) is None,
        },
{
    let mut g = Reader::at(body, hdr.after_root());
    let text = g.var16()?;
    Some(slice_to_vec(text))
}

} // verus!
