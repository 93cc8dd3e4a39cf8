//! Inbound messages and their mathematical models.
use vstd::prelude::*;

verus! {

#[derive(Debug, Clone)]
pub struct LogonAck {
    pub heart_bt_int: u32,
    pub schema_deprecated: bool,
    pub uuid: Vec<u8>,
}

/// Model of [`LogonAck`].
#[verifier::ext_equal]
pub struct LogonAckView {
    pub heart_bt_int: u32,
    pub schema_deprecated: bool,
    pub uuid: Seq<u8>,
}

impl View for LogonAck {
    type V = LogonAckView;

    open spec fn view(&self) -> LogonAckView {
        LogonAckView {
            heart_bt_int: self.heart_bt_int,
            schema_deprecated: self.schema_deprecated,
            uuid: self.uuid@,
        }
    }
}

/// Prices and quantities are mantissas, scaled by the two exponents.
#[derive(Debug, Clone)]
pub struct ExecutionReport {
    pub price_exponent: i8,
    pub qty_exponent: i8,
    pub exec_id: i64,
    pub order_id: i64,
    pub order_qty: i64,
    pub ord_type: u8,
    pub side: u8,
    pub price: i64,
    pub transact_time: i64,
    pub exec_type: u8,
    pub cum_qty: i64,
    pub leaves_qty: i64,
    pub cum_quote_qty: i64,
    pub trade_id: i64,
    pub last_px: i64,
    pub last_qty: i64,
    pub ord_status: u8,
    pub error_code: i32,
    pub cl_ord_id: Vec<u8>,
    pub orig_cl_ord_id: Vec<u8>,
    pub symbol: Vec<u8>,
    pub error_text: Vec<u8>,
}

/// Model of [`ExecutionReport`].
#[verifier::ext_equal]
pub struct ExecutionReportView {
    pub price_exponent: i8,
    pub qty_exponent: i8,
    pub exec_id: i64,
    pub order_id: i64,
    pub order_qty: i64,
    pub ord_type: u8,
    pub side: u8,
    pub price: i64,
    pub transact_time: i64,
    pub exec_type: u8,
    pub cum_qty: i64,
    pub leaves_qty: i64,
    pub cum_quote_qty: i64,
    pub trade_id: i64,
    pub last_px: i64,
    pub last_qty: i64,
    pub ord_status: u8,
    pub error_code: i32,
    pub cl_ord_id: Seq<u8>,
    pub orig_cl_ord_id: Seq<u8>,
    pub symbol: Seq<u8>,
    pub error_text: Seq<u8>,
}

impl View for ExecutionReport {
    type V = ExecutionReportView;

    open spec fn view(&self) -> ExecutionReportView {
        ExecutionReportView {
            price_exponent: self.price_exponent,
            qty_exponent: self.qty_exponent,
            exec_id: self.exec_id,
            order_id: self.order_id,
            order_qty: self.order_qty,
            ord_type: self.ord_type,
            side: self.side,
            price: self.price,
            transact_time: self.transact_time,
            exec_type: self.exec_type,
            cum_qty: self.cum_qty,
            leaves_qty: self.leaves_qty,
            cum_quote_qty: self.cum_quote_qty,
            trade_id: self.trade_id,
            last_px: self.last_px,
            last_qty: self.last_qty,
            ord_status: self.ord_status,
            error_code: self.error_code,
            cl_ord_id: self.cl_ord_id@,
            orig_cl_ord_id: self.orig_cl_ord_id@,
            symbol: self.symbol@,
            error_text: self.error_text@,
        }
    }
}

#[derive(Debug, Clone)]
pub struct ExecutionReportAck {
    pub order_id: i64,
    pub transact_time: i64,
    pub exec_type: u8,
    pub ord_status: u8,
    pub error_code: i32,
    pub cl_ord_id: Vec<u8>,
    pub symbol: Vec<u8>,
}

/// Model of [`ExecutionReportAck`].
#[verifier::ext_equal]
pub struct ExecutionReportAckView {
    pub order_id: i64,
    pub transact_time: i64,
    pub exec_type: u8,
    pub ord_status: u8,
    pub error_code: i32,
    pub cl_ord_id: Seq<u8>,
    pub symbol: Seq<u8>,
}

impl View for ExecutionReportAck {
    type V = ExecutionReportAckView;

    open spec fn view(&self) -> ExecutionReportAckView {
        ExecutionReportAckView {
            order_id: self.order_id,
            transact_time: self.transact_time,
            exec_type: self.exec_type,
            ord_status: self.ord_status,
            error_code: self.error_code,
            cl_ord_id: self.cl_ord_id@,
            symbol: self.symbol@,
        }
    }
}

#[derive(Debug, Clone)]
pub struct OrderCancelRejectMsg {
    pub order_id: i64,
    pub error_code: i32,
    pub cl_ord_id: Vec<u8>,
    pub orig_cl_ord_id: Vec<u8>,
    pub symbol: Vec<u8>,
}

/// Model of [`OrderCancelRejectMsg`].
#[verifier::ext_equal]
pub struct OrderCancelRejectView {
    pub order_id: i64,
    pub error_code: i32,
    pub cl_ord_id: Seq<u8>,
    pub orig_cl_ord_id: Seq<u8>,
    pub symbol: Seq<u8>,
}

impl View for OrderCancelRejectMsg {
    type V = OrderCancelRejectView;

    open spec fn view(&self) -> OrderCancelRejectView {
        OrderCancelRejectView {
            order_id: self.order_id,
            error_code: self.error_code,
            cl_ord_id: self.cl_ord_id@,
            orig_cl_ord_id: self.orig_cl_ord_id@,
            symbol: self.symbol@,
        }
    }
}

#[derive(Debug, Clone)]
pub struct RejectMsg {
    pub ref_seq_num: u32,
    pub ref_tag_id: u32,
    pub session_reject_reason: u8,
    pub error_code: i32,
    pub text: Vec<u8>,
}

/// Model of [`RejectMsg`].
#[verifier::ext_equal]
pub struct RejectView {
    pub ref_seq_num: u32,
    pub ref_tag_id: u32,
    pub session_reject_reason: u8,
    pub error_code: i32,
    pub text: Seq<u8>,
}

impl View for RejectMsg {
    type V = RejectView;

    open spec fn view(&self) -> RejectView {
        RejectView {
            ref_seq_num: self.ref_seq_num,
            ref_tag_id: self.ref_tag_id,
            session_reject_reason: self.session_reject_reason,
            error_code: self.error_code,
            text: self.text@,
        }
    }
}

#[derive(Debug, Clone)]
pub struct MarketDataRequestReject {
    pub error_code: i32,
    pub md_req_id: Vec<u8>,
    pub text: Vec<u8>,
}

/// Model of [`MarketDataRequestReject`].
#[verifier::ext_equal]
pub struct MarketDataRequestRejectView {
    pub error_code: i32,
    pub md_req_id: Seq<u8>,
    pub text: Seq<u8>,
}

impl View for MarketDataRequestReject {
    type V = MarketDataRequestRejectView;

    open spec fn view(&self) -> MarketDataRequestRejectView {
        MarketDataRequestRejectView {
            error_code: self.error_code,
            md_req_id: self.md_req_id@,
            text: self.text@,
        }
    }
}

/// Best bid and offer. Prices are mantissas scaled by `price_exponent`,
/// quantities mantissas scaled by `qty_exponent`; a side that the message does
/// not carry is 0.
#[derive(Debug, Clone)]
pub struct BookTicker {
    pub last_book_update_id: i64,
    pub price_exponent: i8,
    pub qty_exponent: i8,
    pub bid_px: i64,
    pub bid_qty: i64,
    pub ask_px: i64,
    pub ask_qty: i64,
    pub symbol: Vec<u8>,
}

/// Model of [`BookTicker`].
#[verifier::ext_equal]
pub struct BookTickerView {
    pub last_book_update_id: i64,
    pub price_exponent: i8,
    pub qty_exponent: i8,
    pub bid_px: i64,
    pub bid_qty: i64,
    pub ask_px: i64,
    pub ask_qty: i64,
    pub symbol: Seq<u8>,
}

impl View for BookTicker {
    type V = BookTickerView;

    open spec fn view(&self) -> BookTickerView {
        BookTickerView {
            last_book_update_id: self.last_book_update_id,
            price_exponent: self.price_exponent,
            qty_exponent: self.qty_exponent,
            bid_px: self.bid_px,
            bid_qty: self.bid_qty,
            ask_px: self.ask_px,
            ask_qty: self.ask_qty,
            symbol: self.symbol@,
        }
    }
}

/// One trade. Price and quantity are mantissas scaled by the two exponents.
#[derive(Debug, Clone, Copy, PartialEq, Eq, Structural)]
pub struct IncrementalTrade {
    pub transact_time: i64,
    pub price_exponent: i8,
    pub qty_exponent: i8,
    pub px: i64,
    pub qty: i64,
    /// `SIDE_BUY` / `SIDE_SELL`, or 0 if absent.
    pub aggressor_side: u8,
}

/// The model of a [`LogonAck`] holds what the message holds, field by field.
pub proof fn law_logon_ack_model(m: LogonAck)
    ensures
        m@.heart_bt_int == m.heart_bt_int,
        m@.schema_deprecated == m.schema_deprecated,
        m@.uuid == m.uuid@,
{
}

/// The model of an [`ExecutionReport`] holds what the message holds, field by field.
pub proof fn law_execution_report_model(m: ExecutionReport)
    ensures
        m@.price_exponent == m.price_exponent,
        m@.qty_exponent == m.qty_exponent,
        m@.exec_id == m.exec_id,
        m@.order_id == m.order_id,
        m@.order_qty == m.order_qty,
        m@.ord_type == m.ord_type,
        m@.side == m.side,
        m@.price == m.price,
        m@.transact_time == m.transact_time,
        m@.exec_type == m.exec_type,
        m@.cum_qty == m.cum_qty,
        m@.leaves_qty == m.leaves_qty,
        m@.cum_quote_qty == m.cum_quote_qty,
        m@.trade_id == m.trade_id,
        m@.last_px == m.last_px,
        m@.last_qty == m.last_qty,
        m@.ord_status == m.ord_status,
        m@.error_code == m.error_code,
        m@.cl_ord_id == m.cl_ord_id@,
        m@.orig_cl_ord_id == m.orig_cl_ord_id@,
        m@.symbol == m.symbol@,
        m@.error_text == m.error_text@,
{
}

/// The model of an [`ExecutionReportAck`] holds what the message holds, field by field.
pub proof fn law_execution_report_ack_model(m: ExecutionReportAck)
    ensures
        m@.order_id == m.order_id,
        m@.transact_time == m.transact_time,
        m@.exec_type == m.exec_type,
        m@.ord_status == m.ord_status,
        m@.error_code == m.error_code,
        m@.cl_ord_id == m.cl_ord_id@,
        m@.symbol == m.symbol@,
{
}

/// The model of an [`OrderCancelRejectMsg`] holds what the message holds, field by field.
pub proof fn law_order_cancel_reject_msg_model(m: OrderCancelRejectMsg)
    ensures
        m@.order_id == m.order_id,
        m@.error_code == m.error_code,
        m@.cl_ord_id == m.cl_ord_id@,
        m@.orig_cl_ord_id == m.orig_cl_ord_id@,
        m@.symbol == m.symbol@,
{
}

/// The model of a [`RejectMsg`] holds what the message holds, field by field.
pub proof fn law_reject_msg_model(m: RejectMsg)
    ensures
        m@.ref_seq_num == m.ref_seq_num,
        m@.ref_tag_id == m.ref_tag_id,
        m@.session_reject_reason == m.session_reject_reason,
        m@.error_code == m.error_code,
        m@.text == m.text@,
{
}

/// The model of a [`MarketDataRequestReject`] holds what the message holds, field by field.
pub proof fn law_market_data_request_reject_model(m: MarketDataRequestReject)
    ensures
        m@.error_code == m.error_code,
        m@.md_req_id == m.md_req_id@,
        m@.text == m.text@,
{
}

/// The model of a [`BookTicker`] holds what the message holds, field by field.
pub proof fn law_book_ticker_model(m: BookTicker)
    ensures
        m@.last_book_update_id == m.last_book_update_id,
        m@.price_exponent == m.price_exponent,
        m@.qty_exponent == m.qty_exponent,
        m@.bid_px == m.bid_px,
        m@.bid_qty == m.bid_qty,
        m@.ask_px == m.ask_px,
        m@.ask_qty == m.ask_qty,
        m@.symbol == m.symbol@,
{
}

} // verus!
