//! SBE codec for the Binance Spot FIX API, schema `spot-fixsbe-1_1.xml`
//! (id 1, version 1).
//!
//! One message on the socket is
//!
//! ```text
//! [SOFH: u32 messageLength | u16 encodingType = 0xEB50]
//! [messageHeader: u16 blockLength | u16 templateId | u16 schemaId | u16 version
//!                 u32 seqNum | i64 sendingTime (us)]
//! [root block: fixed-length fields, exactly blockLength bytes]
//! [repeating groups, in schema order]
//! [variable-length data fields, in schema order]
//! ```
//!
//! `messageLength` counts the whole frame. All integers are little-endian. A
//! decimal is a mantissa (`i64`) and an exponent (`i8`) in two fields.
pub mod consts;
pub mod decode;
pub mod decode_laws;
pub mod encode;
pub mod encode_laws;
pub mod encoder;
pub mod frame;
pub mod market;
pub mod market_laws;
pub mod messages;
pub mod place;
pub mod reader;
pub mod short_laws;
pub mod tid;
pub mod wire;

pub use self::decode::{
    decode_execution_report, decode_execution_report_ack, decode_logon_ack, decode_logout,
    decode_md_request_reject, decode_order_cancel_reject, decode_reject, decode_test_request,
};
pub use self::encode::{
    encode_heartbeat, encode_logon, encode_logout, encode_market_data_request,
    encode_new_order_limit_postonly, encode_order_cancel, encode_test_request,
};
pub use self::encoder::Encoder;
pub use self::frame::{next_frame_len, parse_frame_header, FrameHeader};
pub use self::market::{
    decode_book_ticker, decode_incremental_trade, decode_incremental_trade_all, decode_snapshot,
};
pub use self::messages::{
    BookTicker, ExecutionReport, ExecutionReportAck, IncrementalTrade, LogonAck,
    MarketDataRequestReject, OrderCancelRejectMsg, RejectMsg,
};
pub use self::reader::Reader;
