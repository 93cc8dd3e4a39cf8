//! Template ids of the messages.
use vstd::prelude::*;

verus! {

pub const HEARTBEAT: u16 = 20001;

pub const TEST_REQUEST: u16 = 20002;

pub const REJECT: u16 = 20003;

pub const LOGOUT: u16 = 20004;

pub const LOGON: u16 = 20008;

pub const LOGON_ACK: u16 = 20009;

pub const NEWS: u16 = 20100;

pub const NEW_ORDER_SINGLE: u16 = 99;

pub const ORDER_CANCEL_REQUEST: u16 = 101;

pub const EXECUTION_REPORT: u16 = 98;

pub const EXECUTION_REPORT_ACK: u16 = 198;

pub const ORDER_CANCEL_REJECT: u16 = 96;

pub const MARKET_DATA_REQUEST: u16 = 202;

pub const MARKET_DATA_REQUEST_REJECT: u16 = 203;

pub const MARKET_DATA_SNAPSHOT: u16 = 204;

pub const MD_INCREMENTAL_TRADE: u16 = 205;

pub const MD_INCREMENTAL_BOOK_TICKER: u16 = 206;

pub const MD_INCREMENTAL_DEPTH: u16 = 207;

} // verus!
