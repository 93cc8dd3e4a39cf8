//! The wire codec: exact frames, and what is read back from them.
use mm::sbe::consts;
use mm::sbe::encoder::Encoder;
use mm::sbe::frame::is_malformed_length;
use mm::sbe::{
    decode_book_ticker, decode_execution_report, decode_execution_report_ack,
    decode_incremental_trade, decode_incremental_trade_all, decode_logon_ack, decode_logout,
    decode_md_request_reject, decode_order_cancel_reject, decode_reject, decode_snapshot,
    decode_test_request, encode_heartbeat, encode_logon, encode_logout,
    encode_market_data_request, encode_new_order_limit_postonly, encode_order_cancel,
    encode_test_request, next_frame_len, parse_frame_header, tid, FrameHeader, Reader,
};

fn header(frame: &[u8]) -> FrameHeader {
    match parse_frame_header(frame) {
        Some(Ok(h)) => h,
        other => panic!("no header: {:?}", other),
    }
}

#[test]
fn heartbeat_is_exact() {
    let expected: Vec<u8> = vec![
        0x1f, 0x00, 0x00, 0x00, 0x50, 0xeb, 0x00, 0x00, 0x21, 0x4e, 0x01, 0x00, 0x01, 0x00, 0x02,
        0x00, 0x00, 0x00, 0x40, 0x42, 0x0f, 0x00, 0x00, 0x00, 0x00, 0x00, 0x04, 0x70, 0x69, 0x6e,
        0x67,
    ];
    assert_eq!(encode_heartbeat(2, 1_000_000, b"ping"), expected);
}

#[test]
fn logon_is_exact() {
    let expected: Vec<u8> = vec![
        0x3d, 0x00, 0x00, 0x00, 0x50, 0xeb, 0x0e, 0x00, 0x28, 0x4e, 0x01, 0x00, 0x01, 0x00, 0x01,
        0x00, 0x00, 0x00, 0x00, 0x40, 0x1e, 0x18, 0x24, 0x0a, 0x06, 0x00, 0x00, 0x1e, 0x00, 0x00,
        0x00, 0x01, 0x01, 0x01, 0x01, 0xff, 0x40, 0x4b, 0x4c, 0x00, 0x04, 0x4d, 0x4d, 0x4f, 0x45,
        0x04, 0x53, 0x50, 0x4f, 0x54, 0x04, 0x00, 0x63, 0x32, 0x6c, 0x6e, 0x03, 0x00, 0x4b, 0x45,
        0x59,
    ];
    let frame = encode_logon(
        1,
        1_700_000_000_000_000,
        30,
        true,
        consts::MSGHANDLING_UNORDERED,
        Some(consts::RESPMODE_EVERYTHING),
        Some(consts::ERTYPE_FULL),
        5_000_000,
        b"MMOE",
        b"SPOT",
        b"c2ln",
        b"KEY",
    );
    assert_eq!(frame, expected);
}

#[test]
fn logon_writes_absent_fields_as_null() {
    let frame = encode_logon(1, 0, 30, false, 1, None, None, 0, b"", b"", b"", b"");
    assert_eq!(frame[26 + 5], consts::BOOL_FALSE);
    assert_eq!(frame[26 + 7], consts::NULL_U8);
    assert_eq!(frame[26 + 8], consts::NULL_U8);
    assert_eq!(frame.len(), 26 + 14 + 1 + 1 + 2 + 2);
}

#[test]
fn market_data_request_is_exact() {
    let expected: Vec<u8> = vec![
        0x30, 0x00, 0x00, 0x00, 0x50, 0xeb, 0x04, 0x00, 0xca, 0x00, 0x01, 0x00, 0x01, 0x00, 0x03,
        0x00, 0x00, 0x00, 0xfb, 0xff, 0xff, 0xff, 0xff, 0xff, 0xff, 0xff, 0x31, 0x01, 0x00, 0x01,
        0x00, 0x00, 0x01, 0x00, 0x04, 0x45, 0x54, 0x48, 0x55, 0x01, 0x02, 0x30, 0x31, 0x04, 0x62,
        0x6f, 0x6f, 0x6b,
    ];
    let frame = encode_market_data_request(
        3,
        -5,
        true,
        Some(1),
        Some(true),
        b"ETHU",
        &[consts::MDENTRY_BID, consts::MDENTRY_OFFER],
        b"book",
    );
    assert_eq!(frame, expected);
    let unsubscribe: Vec<u8> = vec![
        0x2c, 0x00, 0x00, 0x00, 0x50, 0xeb, 0x04, 0x00, 0xca, 0x00, 0x01, 0x00, 0x01, 0x00, 0x03,
        0x00, 0x00, 0x00, 0xfb, 0xff, 0xff, 0xff, 0xff, 0xff, 0xff, 0xff, 0x32, 0xff, 0xff, 0xff,
        0x00, 0x00, 0x01, 0x00, 0x04, 0x45, 0x54, 0x48, 0x55, 0x01, 0x01, 0x32, 0x01, 0x74,
    ];
    assert_eq!(
        encode_market_data_request(3, -5, false, None, None, b"ETHU", &[consts::MDENTRY_TRADE], b"t"),
        unsubscribe
    );
}

#[test]
fn market_data_request_count_takes_one_byte() {
    let types = vec![consts::MDENTRY_BID; 258];
    let frame = encode_market_data_request(1, 0, true, None, None, b"", &types, b"");
    // Behind the header: root block, one symbol group with an empty symbol.
    assert_eq!(frame[26 + 4 + 4 + 1 + 1], 2);
    assert_eq!(frame.len(), 26 + 4 + 4 + 1 + 2 + 258 + 1);
}

#[test]
fn new_order_is_exact() {
    let expected: Vec<u8> = vec![
        0x6e, 0x00, 0x00, 0x00, 0x50, 0xeb, 0x4c, 0x00, 0x63, 0x00, 0x01, 0x00, 0x01, 0x00, 0x04,
        0x00, 0x00, 0x00, 0x07, 0x00, 0x00, 0x00, 0x00, 0x00, 0x00, 0x00, 0xfe, 0xfc, 0xdc, 0x05,
        0x00, 0x00, 0x00, 0x00, 0x00, 0x00, 0x32, 0x36, 0x47, 0x94, 0x03, 0x00, 0x00, 0x00, 0x00,
        0x00, 0x00, 0x00, 0x00, 0x00, 0x00, 0x00, 0x00, 0x00, 0x00, 0x80, 0x00, 0x00, 0xff, 0xff,
        0xff, 0xff, 0xff, 0xff, 0xff, 0xff, 0xff, 0x00, 0xff, 0x00, 0x31, 0x00, 0x00, 0x00, 0x00,
        0x00, 0x00, 0x00, 0x00, 0x80, 0x00, 0x00, 0x00, 0x00, 0x00, 0x00, 0x00, 0x80, 0xff, 0xff,
        0xff, 0x7f, 0x00, 0x00, 0x00, 0x00, 0x00, 0x00, 0x00, 0x80, 0x00, 0xff, 0x02, 0x6d, 0x31,
        0x04, 0x45, 0x54, 0x48, 0x55,
    ];
    let frame = encode_new_order_limit_postonly(
        4,
        7,
        -2,
        -4,
        1500,
        234_567,
        consts::SIDE_BUY,
        b"m1",
        b"ETHU",
    );
    assert_eq!(frame, expected);
}

#[test]
fn order_cancel_is_exact() {
    let expected: Vec<u8> = vec![
        0x35, 0x00, 0x00, 0x00, 0x50, 0xeb, 0x11, 0x00, 0x65, 0x00, 0x01, 0x00, 0x01, 0x00, 0x05,
        0x00, 0x00, 0x00, 0x08, 0x00, 0x00, 0x00, 0x00, 0x00, 0x00, 0x00, 0xb1, 0x68, 0xde, 0x3a,
        0x00, 0x00, 0x00, 0x00, 0x00, 0x00, 0x00, 0x00, 0x00, 0x00, 0x00, 0x80, 0xff, 0x02, 0x63,
        0x32, 0x00, 0x00, 0x04, 0x45, 0x54, 0x48, 0x55,
    ];
    assert_eq!(encode_order_cancel(5, 8, 987_654_321, b"c2", b"", b"ETHU"), expected);
}

#[test]
fn logout_is_exact() {
    let expected: Vec<u8> = vec![
        0x1f, 0x00, 0x00, 0x00, 0x50, 0xeb, 0x00, 0x00, 0x24, 0x4e, 0x01, 0x00, 0x01, 0x00, 0x06,
        0x00, 0x00, 0x00, 0x09, 0x00, 0x00, 0x00, 0x00, 0x00, 0x00, 0x00, 0x03, 0x00, 0x62, 0x79,
        0x65,
    ];
    assert_eq!(encode_logout(6, 9, b"bye"), expected);
}

#[test]
fn header_gives_back_what_was_encoded() {
    let frame = encode_test_request(77, -123_456_789, b"id");
    let h = header(&frame);
    assert_eq!(h.message_length as usize, frame.len());
    assert_eq!(h.block_length, consts::TEST_REQUEST_BLOCK_LEN);
    assert_eq!(h.template_id, tid::TEST_REQUEST);
    assert_eq!(h.schema_id, consts::SCHEMA_ID);
    assert_eq!(h.version, consts::SCHEMA_VERSION);
    assert_eq!(h.seq_num, 77);
    assert_eq!(h.sending_time, -123_456_789);
    assert_eq!(h.frame_len(), frame.len());
    assert_eq!(h.root_offset(), 26);
    assert_eq!(h.after_root(), 26);
}

#[test]
fn header_needs_all_its_bytes() {
    let frame = encode_heartbeat(1, 2, b"");
    assert!(parse_frame_header(&frame[..25]).is_none());
    let mut wrong = frame.clone();
    wrong[4] = 0;
    assert_eq!(parse_frame_header(&wrong), Some(Err("bad SOFH encodingType")));
}

#[test]
fn next_frame_len_waits_for_the_whole_frame() {
    let frame = encode_heartbeat(1, 2, b"abc");
    assert_eq!(next_frame_len(&frame[..5]), None);
    assert_eq!(next_frame_len(&frame[..29]), None);
    assert_eq!(next_frame_len(&frame), Some(frame.len()));
    let mut two = frame.clone();
    two.extend_from_slice(&frame);
    assert_eq!(next_frame_len(&two), Some(frame.len()));
}

#[test]
fn next_frame_len_of_an_impossible_length() {
    assert_eq!(next_frame_len(&[5, 0, 0, 0, 0x50, 0xEB]), None);
    assert!(is_malformed_length(&[5, 0, 0, 0, 0x50, 0xEB]));
    assert!(!is_malformed_length(&[5, 0, 0, 0, 0x50]));
    let mut short = vec![25, 0, 0, 0, 0x50, 0xEB];
    short.resize(40, 0);
    assert_eq!(next_frame_len(&short), None);
    assert!(is_malformed_length(&short));
    assert_eq!(next_frame_len(&[26, 0, 0, 0, 0x50, 0xEB]), None);
    assert!(!is_malformed_length(&[26, 0, 0, 0, 0x50, 0xEB]));
    short[0] = 26;
    assert_eq!(next_frame_len(&short), Some(26));
}

#[test]
fn test_request_and_logout_round_trip() {
    let frame = encode_test_request(1, 2, b"are you there");
    assert_eq!(decode_test_request(&header(&frame), &frame), Some(b"are you there".to_vec()));
    let frame = encode_logout(1, 2, b"");
    assert_eq!(decode_logout(&header(&frame), &frame), Some(Vec::new()));
    let frame = encode_logout(1, 2, b"so long");
    assert_eq!(decode_logout(&header(&frame), &frame), Some(b"so long".to_vec()));
    let cut = &frame[..frame.len() - 1];
    assert_eq!(decode_logout(&header(&frame), cut), None);
}

#[test]
fn reader_reads_every_width() {
    let bytes = [
        0xfe, 0xff, 0x34, 0x12, 0x78, 0x56, 0x34, 0x12, 0xff, 0xff, 0xff, 0xff, 1, 0, 0, 0, 0, 0, 0,
        0x80, 0xfe, 0xff, 0xff, 0xff, 0xff, 0xff, 0xff, 0xff, 2, 0x61, 0x62, 1, 0, 0x63,
    ];
    let mut r = Reader::new(&bytes);
    assert_eq!(r.remaining(), bytes.len());
    assert_eq!(r.u8(), Some(0xfe));
    assert_eq!(r.i8(), Some(-1));
    assert_eq!(r.u16(), Some(0x1234));
    assert_eq!(r.u32(), Some(0x1234_5678));
    assert_eq!(r.i32(), Some(-1));
    assert_eq!(r.u64(), Some(0x8000_0000_0000_0001));
    assert_eq!(r.i64(), Some(-2));
    assert_eq!(r.var8(), Some(&b"ab"[..]));
    assert_eq!(r.var16(), Some(&b"c"[..]));
    assert_eq!(r.remaining(), 0);
    assert_eq!(r.u8(), None);
    let mut r = Reader::at(&bytes, 2);
    assert_eq!(r.skip(2), Some(()));
    assert_eq!(r.pos, 4);
    assert_eq!(r.skip(1000), None);
    let mut past = Reader::at(&bytes, 1000);
    assert_eq!(past.remaining(), 0);
    assert_eq!(past.u8(), None);
    assert_eq!(past.skip(usize::MAX), None);
}

#[test]
fn encoder_writes_every_width() {
    let mut e = Encoder::start(1, 2, 3, 4);
    e.u8(1);
    e.i8(-1);
    e.u16(0x1234);
    e.u32(0x1234_5678);
    e.i32(-2);
    e.i64(-3);
    e.u64(u64::MAX);
    e.var8(b"x");
    e.var16(b"y");
    e.group_dim_small8(1, 2);
    e.group_dim_16(1, 2);
    e.group_dim_small16(1, 2);
    e.group_dim_32(1, 2);
    let frame = e.finish();
    let expected: Vec<u8> = vec![
        1, 0xff, 0x34, 0x12, 0x78, 0x56, 0x34, 0x12, 0xfe, 0xff, 0xff, 0xff, 0xfd, 0xff, 0xff, 0xff,
        0xff, 0xff, 0xff, 0xff, 0xff, 0xff, 0xff, 0xff, 0xff, 0xff, 0xff, 0xff, 1, 0x78, 1, 0, 0x79,
        1, 2, 1, 0, 2, 0, 1, 2, 0, 1, 0, 2, 0, 0, 0,
    ];
    assert_eq!(&frame[26..], &expected[..]);
    assert_eq!(header(&frame).message_length as usize, frame.len());
}

#[test]
fn logon_ack_decodes() {
    let mut e = Encoder::start(tid::LOGON_ACK, 6, 1, 0);
    e.u8(0);
    e.u32(25);
    e.u8(consts::BOOL_TRUE);
    e.var8(b"uuid");
    let frame = e.finish();
    let ack = decode_logon_ack(&header(&frame), &frame).unwrap();
    assert_eq!(ack.heart_bt_int, 25);
    assert!(ack.schema_deprecated);
    assert_eq!(ack.uuid, b"uuid".to_vec());
    assert!(decode_logon_ack(&header(&frame), &frame[..frame.len() - 1]).is_none());
}

#[test]
fn logon_ack_skips_a_longer_root_block() {
    let mut e = Encoder::start(tid::LOGON_ACK, 9, 1, 0);
    e.u8(0);
    e.u32(25);
    e.u8(consts::BOOL_FALSE);
    e.u8(9);
    e.u16(9);
    e.var8(b"u");
    let frame = e.finish();
    let ack = decode_logon_ack(&header(&frame), &frame).unwrap();
    assert!(!ack.schema_deprecated);
    assert_eq!(ack.uuid, b"u".to_vec());
}

/// A full ExecutionReport with recognisable values, cut behind the symbol or not.
fn execution_report(fees: u16, rest: bool) -> Vec<u8> {
    let mut e = Encoder::start(tid::EXECUTION_REPORT, 281, 9, 0);
    e.i8(-2);
    e.i8(-4);
    e.i64(11);
    e.i64(12);
    e.i64(1500);
    e.u8(consts::ORDTYPE_LIMIT);
    e.u8(consts::SIDE_SELL);
    e.u8(0);
    e.i64(234_567);
    e.u8(0);
    e.u8(0);
    e.i64(consts::NULL_I64);
    e.u8(0);
    e.u8(0);
    e.u64(u64::MAX);
    e.u8(255);
    e.u8(0);
    e.u8(255);
    e.u8(0);
    e.i64(consts::NULL_I64);
    e.u8(0);
    e.i64(13);
    e.i64(0);
    e.i64(0);
    e.i64(0);
    e.i64(0);
    e.i32(0);
    e.i64(0);
    e.u8(0);
    e.u8(0);
    e.u8(consts::EXECTYPE_TRADE);
    e.i64(14);
    e.i64(15);
    e.i64(16);
    e.u8(0);
    e.i64(17);
    e.i64(18);
    e.i64(19);
    e.u8(consts::ORDSTATUS_PARTIALLY_FILLED);
    e.i64(0);
    e.i64(0);
    e.i64(0);
    e.u8(0);
    e.u8(0);
    e.u8(0);
    e.i64(0);
    e.i64(0);
    e.i64(0);
    e.i64(0);
    e.i64(0);
    e.i64(0);
    e.i64(0);
    e.i64(0);
    e.i64(0);
    e.u8(0);
    e.u8(0);
    e.i32(-2010);
    e.u8(0);
    e.group_dim_small16(3, fees);
    let mut i = 0;
    while i < fees {
        e.u8(1);
        e.u16(2);
        e.var8(b"FEE");
        i += 1;
    }
    e.var8(b"m1");
    e.var8(b"o1");
    e.var8(b"ETHU");
    if rest {
        e.var8(b"second");
        e.var8(b"counter");
        e.var16(b"no funds");
    }
    e.finish()
}

#[test]
fn execution_report_decodes() {
    let frame = execution_report(2, true);
    let er = decode_execution_report(&header(&frame), &frame).unwrap();
    assert_eq!((er.price_exponent, er.qty_exponent), (-2, -4));
    assert_eq!((er.exec_id, er.order_id, er.order_qty), (11, 12, 1500));
    assert_eq!((er.ord_type, er.side, er.price), (consts::ORDTYPE_LIMIT, consts::SIDE_SELL, 234_567));
    assert_eq!((er.transact_time, er.exec_type), (13, consts::EXECTYPE_TRADE));
    assert_eq!((er.cum_qty, er.leaves_qty, er.cum_quote_qty), (14, 15, 16));
    assert_eq!((er.trade_id, er.last_px, er.last_qty), (17, 18, 19));
    assert_eq!((er.ord_status, er.error_code), (consts::ORDSTATUS_PARTIALLY_FILLED, -2010));
    assert_eq!(er.cl_ord_id, b"m1".to_vec());
    assert_eq!(er.orig_cl_ord_id, b"o1".to_vec());
    assert_eq!(er.symbol, b"ETHU".to_vec());
    assert_eq!(er.error_text, b"no funds".to_vec());
}

#[test]
fn execution_report_without_its_last_texts() {
    let frame = execution_report(0, false);
    let er = decode_execution_report(&header(&frame), &frame).unwrap();
    assert_eq!(er.symbol, b"ETHU".to_vec());
    assert_eq!(er.error_text, Vec::<u8>::new());
    assert!(decode_execution_report(&header(&frame), &frame[..frame.len() - 1]).is_none());
    assert!(decode_execution_report(&header(&frame), &frame[..26 + 280]).is_none());
}

#[test]
fn execution_report_ack_decodes() {
    let mut e = Encoder::start(tid::EXECUTION_REPORT_ACK, 31, 1, 0);
    e.i64(5);
    e.i64(0);
    e.i64(6);
    e.u8(consts::EXECTYPE_NEW);
    e.u8(consts::ORDSTATUS_NEW);
    e.u8(0);
    e.i32(-7);
    e.var8(b"cid");
    e.var8(b"ETHU");
    let frame = e.finish();
    let ack = decode_execution_report_ack(&header(&frame), &frame).unwrap();
    assert_eq!((ack.order_id, ack.transact_time, ack.error_code), (5, 6, -7));
    assert_eq!((ack.exec_type, ack.ord_status), (consts::EXECTYPE_NEW, consts::ORDSTATUS_NEW));
    assert_eq!((ack.cl_ord_id, ack.symbol), (b"cid".to_vec(), b"ETHU".to_vec()));
}

#[test]
fn order_cancel_reject_decodes() {
    let mut e = Encoder::start(tid::ORDER_CANCEL_REJECT, 22, 1, 0);
    e.i64(5);
    e.i64(0);
    e.u8(0);
    e.u8(0x31);
    e.i32(-2011);
    e.var8(b"c");
    e.var8(b"o");
    e.var8(b"");
    e.var8(b"ETHU");
    let frame = e.finish();
    let m = decode_order_cancel_reject(&header(&frame), &frame).unwrap();
    assert_eq!((m.order_id, m.error_code), (5, -2011));
    assert_eq!(m.cl_ord_id, b"c".to_vec());
    assert_eq!(m.orig_cl_ord_id, b"o".to_vec());
    assert_eq!(m.symbol, b"ETHU".to_vec());
}

#[test]
fn reject_decodes() {
    let mut e = Encoder::start(tid::REJECT, 13, 1, 0);
    e.u32(4);
    e.u32(108);
    e.u8(6);
    e.i32(-1130);
    e.var8(b"A");
    e.var16(b"bad value");
    let frame = e.finish();
    let m = decode_reject(&header(&frame), &frame).unwrap();
    assert_eq!((m.ref_seq_num, m.ref_tag_id, m.session_reject_reason, m.error_code), (4, 108, 6, -1130));
    assert_eq!(m.text, b"bad value".to_vec());
}

#[test]
fn md_request_reject_decodes() {
    let mut e = Encoder::start(tid::MARKET_DATA_REQUEST_REJECT, 5, 1, 0);
    e.u8(0x30);
    e.i32(-3);
    e.var8(b"book");
    e.var16(b"unknown");
    let frame = e.finish();
    let m = decode_md_request_reject(&header(&frame), &frame).unwrap();
    assert_eq!((m.error_code, m.md_req_id, m.text), (-3, b"book".to_vec(), b"unknown".to_vec()));
}

#[test]
fn book_ticker_takes_the_first_level() {
    let mut e = Encoder::start(tid::MD_INCREMENTAL_BOOK_TICKER, 10, 1, 0);
    e.i64(42);
    e.i8(-2);
    e.i8(-4);
    e.group_dim_small8(18, 2);
    e.i64(100);
    e.i64(7);
    e.u16(0);
    e.i64(99);
    e.i64(8);
    e.u16(0);
    e.group_dim_small8(16, 0);
    e.var8(b"ETHU");
    let frame = e.finish();
    let b = decode_book_ticker(&header(&frame), &frame).unwrap();
    assert_eq!((b.last_book_update_id, b.price_exponent, b.qty_exponent), (42, -2, -4));
    assert_eq!((b.bid_px, b.bid_qty, b.ask_px, b.ask_qty), (100, 7, 0, 0));
    assert_eq!(b.symbol, b"ETHU".to_vec());
    // The symbol is optional, the groups are not.
    let b = decode_book_ticker(&header(&frame), &frame[..frame.len() - 5]).unwrap();
    assert_eq!(b.symbol, Vec::<u8>::new());
    assert!(decode_book_ticker(&header(&frame), &frame[..frame.len() - 6]).is_none());
}

#[test]
fn snapshot_counts_in_two_bytes() {
    let mut e = Encoder::start(tid::MARKET_DATA_SNAPSHOT, 10, 1, 0);
    e.i64(42);
    e.i8(-2);
    e.i8(-4);
    e.group_dim_small16(16, 0);
    e.group_dim_small16(16, 1);
    e.i64(101);
    e.i64(9);
    e.var8(b"ETHU");
    let frame = e.finish();
    let b = decode_snapshot(&header(&frame), &frame).unwrap();
    assert_eq!((b.bid_px, b.bid_qty, b.ask_px, b.ask_qty), (0, 0, 101, 9));
    assert_eq!(b.symbol, b"ETHU".to_vec());
}

fn trades(declared: u32, there: u32) -> Vec<u8> {
    let mut e = Encoder::start(tid::MD_INCREMENTAL_TRADE, 10, 1, 0);
    e.i64(1000);
    e.i8(-2);
    e.i8(-4);
    e.group_dim_32(25, declared);
    let mut i = 0;
    while i < there {
        e.i64(i as i64);
        e.i64(100 + i as i64);
        e.i64(200 + i as i64);
        e.u8(if i == 0 { consts::NULL_U8 } else { consts::SIDE_SELL });
        i += 1;
    }
    e.finish()
}

#[test]
fn single_trade_is_the_last_of_all() {
    let frame = trades(3, 3);
    let one = decode_incremental_trade(&header(&frame), &frame).unwrap();
    let all = decode_incremental_trade_all(&header(&frame), &frame);
    assert_eq!(all.len(), 3);
    assert_eq!((one.px, one.qty, one.aggressor_side), (102, 202, consts::SIDE_SELL));
    assert_eq!((all[2].px, all[2].qty, all[2].aggressor_side), (102, 202, consts::SIDE_SELL));
    assert_eq!((all[0].px, all[0].qty, all[0].aggressor_side), (100, 200, 0));
    assert_eq!((one.transact_time, one.price_exponent, one.qty_exponent), (1000, -2, -4));
}

#[test]
fn trades_that_are_cut_off() {
    let frame = trades(3, 2);
    assert!(decode_incremental_trade(&header(&frame), &frame).is_none());
    assert_eq!(decode_incremental_trade_all(&header(&frame), &frame).len(), 2);
    let frame = trades(0, 0);
    assert!(decode_incremental_trade(&header(&frame), &frame).is_none());
    assert!(decode_incremental_trade_all(&header(&frame), &frame).is_empty());
}
