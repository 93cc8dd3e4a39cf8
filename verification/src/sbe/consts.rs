//! Schema constants: header sizes, enum values, null sentinels and root-block
//! lengths.
use vstd::prelude::*;

verus! {

pub const ENCODING_TYPE: u16 = 0xEB50;

pub const SCHEMA_ID: u16 = 1;

pub const SCHEMA_VERSION: u16 = 1;

pub const SOFH_LEN: usize = 6;

pub const MSG_HEADER_LEN: usize = 20;

/// Bytes before the root block.
pub const FRAME_PREFIX: usize = SOFH_LEN + MSG_HEADER_LEN;

pub const BOOL_FALSE: u8 = 0;

pub const BOOL_TRUE: u8 = 1;

// side (char)
pub const SIDE_BUY: u8 = 0x31;

pub const SIDE_SELL: u8 = 0x32;

// ordType (char)
pub const ORDTYPE_MARKET: u8 = 0x31;

pub const ORDTYPE_LIMIT: u8 = 0x32;

// execInst (char): ParticipateDontInitiate, i.e. post-only
pub const EXECINST_PARTICIPATE_DONT_INITIATE: u8 = 0x36;

// timeInForce (char)
pub const TIF_GTC: u8 = 0x31;

pub const TIF_IOC: u8 = 0x33;

pub const TIF_FOK: u8 = 0x34;

// messageHandling (uint8)
pub const MSGHANDLING_UNORDERED: u8 = 1;

pub const MSGHANDLING_SEQUENTIAL: u8 = 2;

// responseMode (uint8)
pub const RESPMODE_EVERYTHING: u8 = 1;

pub const RESPMODE_ONLY_ACKS: u8 = 2;

// executionReportType (uint8)
pub const ERTYPE_FULL: u8 = 1;

pub const ERTYPE_MINI: u8 = 2;

// execType (char)
pub const EXECTYPE_NEW: u8 = 0x30;

pub const EXECTYPE_CANCELED: u8 = 0x34;

pub const EXECTYPE_REPLACED: u8 = 0x35;

pub const EXECTYPE_REJECTED: u8 = 0x38;

pub const EXECTYPE_TRADE: u8 = 0x46;

pub const EXECTYPE_EXPIRED: u8 = 0x43;

// ordStatus (char)
pub const ORDSTATUS_NEW: u8 = 0x30;

pub const ORDSTATUS_PARTIALLY_FILLED: u8 = 0x31;

pub const ORDSTATUS_FILLED: u8 = 0x32;

pub const ORDSTATUS_CANCELED: u8 = 0x34;

pub const ORDSTATUS_PENDING_CANCEL: u8 = 0x36;

pub const ORDSTATUS_REJECTED: u8 = 0x38;

pub const ORDSTATUS_PENDING_NEW: u8 = 0x41;

pub const ORDSTATUS_EXPIRED: u8 = 0x43;

// subscriptionRequestType (char)
pub const SUBREQ_SUBSCRIBE: u8 = 0x31;

pub const SUBREQ_UNSUBSCRIBE: u8 = 0x32;

// mdEntryType (char)
pub const MDENTRY_BID: u8 = 0x30;

pub const MDENTRY_OFFER: u8 = 0x31;

pub const MDENTRY_TRADE: u8 = 0x32;

// selfTradePreventionMode (char)
pub const STP_NONE: u8 = 0x31;

// Null sentinels of optional primitives.
pub const NULL_I64: i64 = i64::MIN;

pub const NULL_I32: i32 = i32::MAX;

pub const NULL_U32: u32 = u32::MAX;

pub const NULL_U16: u16 = u16::MAX;

pub const NULL_U8: u8 = u8::MAX;

pub const NULL_I8: i8 = i8::MIN;

/// Null of an optional `char` or char enum.
pub const NULL_CHAR: u8 = 0x00;

/// EncryptMethod u8, HeartBtInt u32, ResetSeqNumFlag bool, MessageHandling u8,
/// ResponseMode u8, ExecutionReportType u8, DropCopyFlag bool, RecvWindow u32.
pub const LOGON_BLOCK_LEN: u16 = 14;

/// SubscriptionRequestType char, MarketDepth u16, AggregatedBook bool.
pub const MARKET_DATA_REQUEST_BLOCK_LEN: u16 = 4;

/// The RelatedSym group holds a variable-length field only.
pub const RELATED_SYM_GROUP_BLOCK_LEN: u16 = 0;

/// MDEntryType char.
pub const MD_ENTRY_TYPES_GROUP_BLOCK_LEN: u8 = 1;

/// The twenty-four fixed fields of NewOrderSingle.
pub const NEW_ORDER_SINGLE_BLOCK_LEN: u16 = 76;

/// OrderID i64, ListID i64, CancelRestrictions u8.
pub const ORDER_CANCEL_REQUEST_BLOCK_LEN: u16 = 17;

pub const HEARTBEAT_BLOCK_LEN: u16 = 0;

pub const TEST_REQUEST_BLOCK_LEN: u16 = 0;

pub const LOGOUT_BLOCK_LEN: u16 = 0;

} // verus!
