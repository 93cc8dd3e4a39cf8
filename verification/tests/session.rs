//! The session layer: timestamps, signatures, numbering, reading.
use base64::Engine;
use ed25519_dalek::Verifier;
use mm::fix::auth::{logon_payload, parse_ed25519_pem, sign_logon, signature_text, Ed25519Key};
use mm::fix::inbound::{InboundMsg, ReadAction, ReadEnd, ReadLoop};
use mm::fix::logon::{LogonError, LogonProgress, LogonWait};
use mm::fix::session::{FixSession, SessionKind};
use mm::fix::time::{
    civil_date, clordid_at, clordid_when, fix_utc_timestamp, gen_clordid, micros_when, now_us,
    ts_log, ts_log_when, Date, UnixTime,
};
use mm::sbe::encoder::Encoder;
use mm::sbe::{
    consts, encode_heartbeat, encode_logout, encode_test_request, parse_frame_header, tid,
};

fn session() -> FixSession {
    FixSession::new(SessionKind::OrderEntry, "MMOE".to_string(), "SPOT".to_string())
}

fn seq_of(frame: &[u8]) -> u32 {
    match parse_frame_header(frame) {
        Some(Ok(h)) => h.seq_num,
        _ => panic!("no header"),
    }
}

#[test]
fn timestamps_follow_the_calendar() {
    assert_eq!(fix_utc_timestamp(0), "19700101-00:00:00.000000");
    assert_eq!(fix_utc_timestamp(946_684_799_000_000), "19991231-23:59:59.000000");
    assert_eq!(fix_utc_timestamp(951_782_400_000_000), "20000229-00:00:00.000000");
    assert_eq!(fix_utc_timestamp(1_709_209_845_123_456), "20240229-12:30:45.123456");
    assert_eq!(fix_utc_timestamp(4_107_542_399_999_999), "21000228-23:59:59.999999");
    assert_eq!(fix_utc_timestamp(4_107_542_400_000_000), "21000301-00:00:00.000000");
}

#[test]
fn timestamps_are_in_order() {
    let instants = [
        0,
        999_999,
        1_000_000,
        59_999_999,
        60_000_000,
        3_599_999_999,
        3_600_000_000,
        86_399_999_999,
        86_400_000_000,
        951_782_399_999_999,
        951_782_400_000_000,
        253_402_300_799_999_999,
    ];
    let texts: Vec<String> = instants.iter().map(|us| fix_utc_timestamp(*us)).collect();
    let mut i = 1;
    while i < texts.len() {
        assert!(texts[i - 1].as_bytes() < texts[i].as_bytes());
        i += 1;
    }
    for t in &texts {
        assert_eq!(t.len(), 24);
        for (i, c) in t.chars().enumerate() {
            match i {
                8 => assert_eq!(c, '-'),
                11 | 14 => assert_eq!(c, ':'),
                17 => assert_eq!(c, '.'),
                _ => assert!(c.is_ascii_digit()),
            }
        }
    }
}

#[test]
fn timestamps_beyond_four_digits_and_below_zero() {
    assert_eq!(fix_utc_timestamp(i64::MAX), "2942470110-04:00:54.775807");
    assert_eq!(fix_utc_timestamp(-1), "5865240119-08:01:49.551615");
}

#[test]
fn dates_have_their_day_numbers() {
    assert_eq!(civil_date(0), Date { year: 1970, month: 1, day: 1 });
    assert_eq!(civil_date(59), Date { year: 1970, month: 3, day: 1 });
    assert_eq!(civil_date(11_016), Date { year: 2000, month: 2, day: 29 });
    assert_eq!(civil_date(11_017), Date { year: 2000, month: 3, day: 1 });
    assert_eq!(civil_date(11_322), Date { year: 2000, month: 12, day: 31 });
    assert_eq!(civil_date(11_323), Date { year: 2001, month: 1, day: 1 });
}

#[test]
fn unix_time_truncates() {
    let t = UnixTime { secs: 3 * 86_400 + 4 * 3600 + 5 * 60 + 6, nanos: 7_654_321 };
    assert_eq!(t.micros(), 273_906_007_654);
    assert_eq!(t.millis(), 273_906_007);
    assert_eq!(t.to_log(), "04:05:06.007");
    let far = UnixTime { secs: u64::MAX, nanos: 999_999_999 };
    assert_eq!(far.micros(), -1);
    assert_eq!(far.millis(), 18_446_744_073_709_551_615);
}

#[test]
fn the_clock_runs() {
    let a = now_us().unwrap();
    assert!(a > 1_600_000_000_000_000);
    let b = now_us().unwrap();
    assert!(b >= a - 1_000_000);
    let t = UnixTime::now().unwrap();
    assert!(t.nanos < 1_000_000_000);
    let line = ts_log().unwrap();
    assert_eq!(line.len(), 12);
    assert_eq!(line.as_bytes()[2], b':');
    assert_eq!(line.as_bytes()[8], b'.');
}

#[test]
fn readings_before_the_epoch_give_nothing() {
    let t = UnixTime::from_reading(Some((61, 5_000_000)));
    assert_eq!(t, Some(UnixTime { secs: 61, nanos: 5_000_000 }));
    assert_eq!(UnixTime::from_reading(None), None);
    assert_eq!(micros_when(t), Some(61_005_000));
    assert_eq!(micros_when(None), None);
    assert_eq!(ts_log_when(t), Some("00:01:01.005".to_string()));
    assert_eq!(ts_log_when(None), None);
    assert_eq!(clordid_when('m', t, 1), Some("mee4d1".to_string()));
    assert_eq!(clordid_when('m', None, 1), None);
}

#[test]
fn client_order_ids() {
    assert_eq!(clordid_at('m', 0x18f_1234_abcd, 0x12), "m18f1234abcd12");
    assert_eq!(clordid_at('c', 0, 0), "c00");
    assert_eq!(clordid_at('c', 255, 0x1_00ff_ffff), "cffffffff");
    assert_eq!(clordid_at('m', 9, 5), clordid_at('m', 9, 0x100_0005));
    assert_ne!(clordid_at('m', 9, 5), clordid_at('m', 9, 6));
    let id = gen_clordid('m', 0xabc).unwrap();
    assert!(id.starts_with('m') && id.ends_with("abc") && id.len() > 11);
}

#[test]
fn signature_text_is_base64() {
    let mut bytes = [0u8; 64];
    assert_eq!(signature_text(&bytes), format!("{}==", "A".repeat(86)));
    let mut i = 0;
    while i < 64 {
        bytes[i] = i as u8;
        i += 1;
    }
    assert_eq!(
        signature_text(&bytes),
        "AAECAwQFBgcICQoLDA0ODxAREhMUFRYXGBkaGxwdHh8gISIjJCUmJygpKissLS4vMDEyMzQ1Njc4OTo7PD0+Pw=="
    );
    assert_eq!(signature_text(&[0xff; 64]), format!("{}w==", "/".repeat(85)));
}

#[test]
fn logon_payload_is_exact() {
    let payload = logon_payload("MMOE", "SPOT", 1024, "20240229-12:30:45.123456");
    assert_eq!(payload, b"A\x01MMOE\x01SPOT\x011024\x0120240229-12:30:45.123456".to_vec());
}

#[test]
fn logon_signature_verifies() {
    let secret = [7u8; 32];
    let text = sign_logon(&Ed25519Key { secret }, "MMOE", "SPOT", 1, "20240229-12:30:45.123456");
    let raw = base64::engine::general_purpose::STANDARD.decode(text.as_bytes()).unwrap();
    let signature = ed25519_dalek::Signature::from_slice(&raw).unwrap();
    let public = ed25519_dalek::SigningKey::from_bytes(&secret).verifying_key();
    assert!(public
        .verify(b"A\x01MMOE\x01SPOT\x011\x0120240229-12:30:45.123456", &signature)
        .is_ok());
    assert!(public
        .verify(b"A\x01MMOE\x01SPOT\x012\x0120240229-12:30:45.123456", &signature)
        .is_err());
}

/// A PKCS#8 document in PEM around 32 bytes.
fn pem_of(secret: &[u8; 32]) -> String {
    let mut der: Vec<u8> =
        vec![0x30, 0x2e, 2, 1, 0, 0x30, 5, 6, 3, 0x2b, 0x65, 0x70, 4, 0x22, 4, 0x20];
    der.extend_from_slice(secret);
    let body = base64::engine::general_purpose::STANDARD.encode(&der);
    let label = "PRIVATE KEY";
    format!("-----BEGIN {}-----\n{}\n-----END {}-----\n", label, body, label)
}

#[test]
fn private_key_is_read_from_pem() {
    let mut secret = [0u8; 32];
    secret[0] = 1;
    secret[31] = 9;
    match parse_ed25519_pem(&pem_of(&secret)) {
        Ok(key) => assert_eq!(key.secret, secret),
        Err(e) => panic!("{:?}", e.cause),
    }
    assert!(parse_ed25519_pem("not a key").is_err());
    assert!(parse_ed25519_pem("").is_err());
}

#[test]
fn a_new_session_starts_at_one() {
    let s = session();
    assert_eq!(s.next_seq, 1);
    assert_eq!(s.last_inbound_seq(), 0);
    assert_eq!(s.heartbeat_secs(), 30);
    assert_eq!(s.heartbeat_interval_secs(), 30);
}

#[test]
fn numbers_go_up_by_one() {
    let mut s = session();
    assert_eq!(s.take_seq(), 1);
    assert_eq!(seq_of(&s.send_heartbeat(b"").unwrap()), 2);
    assert_eq!(seq_of(&s.send_test_request(b"t").unwrap()), 3);
    assert_eq!(seq_of(&s.send_logout(b"bye").unwrap()), 4);
    let (seq, frame) = s.send_at(55, |seq, ts| encode_heartbeat(seq, ts, b"x"));
    assert_eq!(seq, 5);
    assert_eq!(frame, encode_heartbeat(5, 55, b"x"));
    let (seq, frame) = s.send_with_seq(|seq, ts| encode_heartbeat(seq, ts, b"y")).unwrap();
    assert_eq!((seq, seq_of(&frame)), (6, 6));
    assert_eq!(s.next_seq, 7);
}

#[test]
fn logon_frame_carries_the_signature() {
    let key = Ed25519Key { secret: [3; 32] };
    let mut s = session();
    let frame = s.logon_at(
        1_709_209_845_123_456,
        &key,
        "api",
        30,
        5_000_000,
        consts::MSGHANDLING_UNORDERED,
        Some(consts::RESPMODE_EVERYTHING),
        Some(consts::ERTYPE_FULL),
    );
    let signature = sign_logon(&key, "MMOE", "SPOT", 1, "20240229-12:30:45.123456");
    let expected = mm::sbe::encode_logon(
        1,
        1_709_209_845_123_456,
        30,
        true,
        consts::MSGHANDLING_UNORDERED,
        Some(consts::RESPMODE_EVERYTHING),
        Some(consts::ERTYPE_FULL),
        5_000_000,
        b"MMOE",
        b"SPOT",
        signature.as_bytes(),
        b"api",
    );
    assert_eq!(frame, expected);
    assert_eq!(s.next_seq, 2);
    let frame = s
        .logon(
            &key,
            "api",
            30,
            5_000_000,
            consts::MSGHANDLING_UNORDERED,
            Some(consts::RESPMODE_EVERYTHING),
            Some(consts::ERTYPE_FULL),
        )
        .unwrap();
    assert_eq!(seq_of(&frame), 2);
    assert_eq!(frame.len(), expected.len());
}

#[test]
fn frames_of_a_given_instant() {
    let mut s = session();
    assert_eq!(s.send_heartbeat_when(Some(9), b"a"), Some(encode_heartbeat(1, 9, b"a")));
    assert_eq!(s.send_test_request_when(Some(8), b"b"), Some(encode_test_request(2, 8, b"b")));
    assert_eq!(s.send_logout_when(Some(-7), b"c"), Some(encode_logout(3, -7, b"c")));
    let built = s.send_when(Some(6), |seq, ts| encode_heartbeat(seq, ts, b"d"));
    assert_eq!(built, Some((4, encode_heartbeat(4, 6, b"d"))));
    let key = Ed25519Key { secret: [3; 32] };
    let frame = s.logon_when(Some(5), &key, "api", 30, 1, 1, None, None).unwrap();
    let mut other = session();
    other.next_seq = 5;
    assert_eq!(frame, other.logon_at(5, &key, "api", 30, 1, 1, None, None));
    assert_eq!(s.next_seq, 6);
}

#[test]
fn no_instant_uses_no_number() {
    let mut s = session();
    assert_eq!(s.send_heartbeat_when(None, b"a"), None);
    assert_eq!(s.send_test_request_when(None, b"b"), None);
    assert_eq!(s.send_logout_when(None, b"c"), None);
    assert_eq!(s.send_when(None, |seq, ts| encode_heartbeat(seq, ts, b"d")), None);
    let key = Ed25519Key { secret: [3; 32] };
    assert_eq!(s.logon_when(None, &key, "api", 30, 1, 1, None, None), None);
    assert_eq!(s.next_seq, 1);
}

fn logon_ack(seq: u32, heart_bt_int: u32, deprecated: u8) -> Vec<u8> {
    let mut e = Encoder::start(tid::LOGON_ACK, 6, seq, 0);
    e.u8(0);
    e.u32(heart_bt_int);
    e.u8(deprecated);
    e.var8(b"u");
    e.finish()
}

fn reject() -> Vec<u8> {
    let mut e = Encoder::start(tid::REJECT, 13, 1, 0);
    e.u32(1);
    e.u32(96);
    e.u8(5);
    e.i32(-1);
    e.var8(b"A");
    e.var16(b"bad signature");
    e.finish()
}

#[test]
fn logon_ack_logs_the_session_on() {
    let mut s = session();
    let mut w = LogonWait::new();
    let ack = logon_ack(3, 45, consts::BOOL_TRUE);
    // A frame of another template is passed over, and the ack comes in two reads.
    let mut first = encode_heartbeat(2, 0, b"");
    first.extend_from_slice(&ack[..10]);
    assert!(matches!(w.on_read(&mut s, &first), LogonProgress::Waiting));
    assert_eq!(s.heartbeat_secs(), 30);
    assert!(matches!(
        w.on_read(&mut s, &ack[10..]),
        LogonProgress::LoggedOn { schema_deprecated: true }
    ));
    assert_eq!(s.heartbeat_secs(), 45);
    assert_eq!(s.last_inbound_seq(), 3);
    assert_eq!(s.next_seq, 1);
}

#[test]
fn logon_without_heartbeats_waits_a_second() {
    let mut s = session();
    assert!(matches!(
        LogonWait::new().on_read(&mut s, &logon_ack(1, 0, consts::BOOL_FALSE)),
        LogonProgress::LoggedOn { schema_deprecated: false }
    ));
    assert_eq!(s.heartbeat_secs(), 0);
    assert_eq!(s.heartbeat_interval_secs(), 1);
}

#[test]
fn logon_failures() {
    let mut s = session();
    assert!(matches!(
        LogonWait::new().on_read(&mut s, &[]),
        LogonProgress::Failed(LogonError::Closed)
    ));
    let mut bad = logon_ack(1, 1, 0);
    bad[5] = 0;
    assert!(matches!(
        LogonWait::new().on_read(&mut s, &bad),
        LogonProgress::Failed(LogonError::BadHeader)
    ));
    let mut e = Encoder::start(tid::LOGON_ACK, 6, 1, 0);
    e.u8(0);
    let short = e.finish();
    assert!(matches!(
        LogonWait::new().on_read(&mut s, &short),
        LogonProgress::Failed(LogonError::BadAck)
    ));
    match LogonWait::new().on_read(&mut s, &reject()) {
        LogonProgress::Failed(LogonError::Rejected(Some(r))) => {
            assert_eq!(r.text, b"bad signature".to_vec());
        }
        other => panic!("{:?}", other),
    }
    match LogonWait::new().on_read(&mut s, &encode_logout(1, 0, b"no")) {
        LogonProgress::Failed(LogonError::LoggedOut(Some(t))) => assert_eq!(t, b"no".to_vec()),
        other => panic!("{:?}", other),
    }
    let unreadable = Encoder::start(tid::REJECT, 0, 1, 0).finish();
    assert!(matches!(
        LogonWait::new().on_read(&mut s, &unreadable),
        LogonProgress::Failed(LogonError::Rejected(None))
    ));
    let textless = Encoder::start(tid::LOGOUT, 0, 1, 0).finish();
    assert!(matches!(
        LogonWait::new().on_read(&mut s, &textless),
        LogonProgress::Failed(LogonError::LoggedOut(None))
    ));
    assert_eq!(s.heartbeat_secs(), 30);
    assert_eq!(s.last_inbound_seq(), 0);
}

#[test]
fn test_request_asks_for_its_heartbeat() {
    let mut s = session();
    let mut l = ReadLoop::new();
    let step = l.on_read(&mut s, &encode_test_request(8, 0, b"alive?"));
    assert!(step.end.is_none());
    assert_eq!(step.actions.len(), 1);
    match &step.actions[0] {
        ReadAction::ReplyHeartbeat(id) => assert_eq!(id, &b"alive?".to_vec()),
        other => panic!("{:?}", other),
    }
    assert_eq!(s.last_inbound_seq(), 8);
}

#[test]
fn logout_ends_the_read_loop() {
    let mut s = session();
    let mut l = ReadLoop::new();
    let mut bytes = encode_heartbeat(1, 0, b"");
    bytes.extend_from_slice(&encode_logout(2, 0, b"maintenance"));
    bytes.extend_from_slice(&encode_test_request(3, 0, b"late"));
    let step = l.on_read(&mut s, &bytes);
    assert_eq!(step.end, Some(ReadEnd::ServerLogout));
    assert_eq!(step.actions.len(), 1);
    match &step.actions[0] {
        ReadAction::Deliver(InboundMsg::Logout(t)) => assert_eq!(t, &b"maintenance".to_vec()),
        other => panic!("{:?}", other),
    }
    assert_eq!(s.last_inbound_seq(), 2);
}

#[test]
fn read_loop_ends() {
    let mut s = session();
    assert_eq!(ReadLoop::new().on_read(&mut s, &[]).end, Some(ReadEnd::Closed));
    let mut bad = encode_heartbeat(4, 0, b"");
    bad[4] = 1;
    let step = ReadLoop::new().on_read(&mut s, &bad);
    assert_eq!(step.end, Some(ReadEnd::BadHeader));
    assert!(step.actions.is_empty());
    assert_eq!(s.last_inbound_seq(), 0);
}

#[test]
fn a_length_below_the_header_ends_the_read_loop() {
    let mut s = session();
    let mut l = ReadLoop::new();
    let mut bytes = encode_test_request(6, 0, b"a");
    let mut bad = Encoder::start(tid::TEST_REQUEST, 0, 7, 0).finish();
    bad[0] = 3;
    bytes.extend_from_slice(&bad);
    bytes.extend_from_slice(&encode_test_request(8, 0, b"b"));
    let step = l.on_read(&mut s, &bytes);
    assert_eq!(step.end, Some(ReadEnd::MalformedLength));
    assert_eq!(step.actions.len(), 1);
    assert_eq!(s.last_inbound_seq(), 6);
    // Six bytes are enough to tell.
    assert!(ReadLoop::new().on_read(&mut s, &bad[..5]).end.is_none());
    assert_eq!(ReadLoop::new().on_read(&mut s, &bad[..6]).end, Some(ReadEnd::MalformedLength));
}

#[test]
fn a_length_below_the_header_answers_no_logon() {
    let mut s = session();
    let mut w = LogonWait::new();
    let mut bad = logon_ack(1, 45, consts::BOOL_FALSE);
    bad[0] = 3;
    assert!(matches!(w.on_read(&mut s, &bad), LogonProgress::Waiting));
    let ack = logon_ack(2, 45, consts::BOOL_FALSE);
    assert!(matches!(w.on_read(&mut s, &ack), LogonProgress::Waiting));
    assert_eq!(s.heartbeat_secs(), 30);
}

#[test]
fn an_unknown_template_is_told() {
    let mut s = session();
    let mut l = ReadLoop::new();
    let step = l.on_read(&mut s, &Encoder::start(tid::NEWS, 0, 6, 0).finish());
    assert!(step.end.is_none());
    assert!(matches!(
        step.actions[0],
        ReadAction::Unhandled { template_id: tid::NEWS, seq_num: 6 }
    ));
    assert!(l.acc.is_empty());
}

fn trade_frame() -> Vec<u8> {
    let mut e = Encoder::start(tid::MD_INCREMENTAL_TRADE, 10, 5, 0);
    e.i64(1000);
    e.i8(-2);
    e.i8(-4);
    e.group_dim_32(25, 2);
    let mut i = 0;
    while i < 2 {
        e.i64(i);
        e.i64(100 + i);
        e.i64(200);
        e.u8(consts::SIDE_BUY);
        i += 1;
    }
    e.finish()
}

#[test]
fn a_trade_frame_is_delivered_twice() {
    let mut s = session();
    let step = ReadLoop::new().on_read(&mut s, &trade_frame());
    assert_eq!(step.actions.len(), 2);
    match &step.actions[0] {
        ReadAction::Deliver(InboundMsg::IncrementalTrade(t)) => assert_eq!(t.px, 101),
        other => panic!("{:?}", other),
    }
    match &step.actions[1] {
        ReadAction::Deliver(InboundMsg::IncrementalTradeBatch(all)) => assert_eq!(all.len(), 2),
        other => panic!("{:?}", other),
    }
}

fn book_frame(template: u16) -> Vec<u8> {
    let mut e = Encoder::start(template, 10, 7, 0);
    e.i64(1);
    e.i8(-2);
    e.i8(-4);
    if template == tid::MARKET_DATA_SNAPSHOT {
        e.group_dim_small16(16, 1);
    } else {
        e.group_dim_small8(16, 1);
    }
    e.i64(55);
    e.i64(66);
    if template == tid::MARKET_DATA_SNAPSHOT {
        e.group_dim_small16(16, 0);
    } else {
        e.group_dim_small8(16, 0);
    }
    e.finish()
}

#[test]
fn books_are_delivered() {
    let mut s = session();
    let mut bytes = book_frame(tid::MARKET_DATA_SNAPSHOT);
    bytes.extend_from_slice(&book_frame(tid::MD_INCREMENTAL_BOOK_TICKER));
    let step = ReadLoop::new().on_read(&mut s, &bytes);
    assert_eq!(step.actions.len(), 2);
    for a in &step.actions {
        match a {
            ReadAction::Deliver(InboundMsg::BookTicker(b)) => {
                assert_eq!((b.bid_px, b.bid_qty, b.ask_px), (55, 66, 0));
            }
            other => panic!("{:?}", other),
        }
    }
}

#[test]
fn rejects_and_reports_are_delivered() {
    let mut s = session();
    let mut ack = Encoder::start(tid::EXECUTION_REPORT_ACK, 31, 1, 0);
    ack.i64(5);
    ack.i64(0);
    ack.i64(6);
    ack.u8(0x30);
    ack.u8(0x30);
    ack.u8(0);
    ack.i32(0);
    ack.var8(b"c");
    ack.var8(b"s");
    let mut cxl = Encoder::start(tid::ORDER_CANCEL_REJECT, 22, 1, 0);
    cxl.i64(5);
    cxl.i64(0);
    cxl.u8(0);
    cxl.u8(0);
    cxl.i32(-2011);
    cxl.var8(b"c");
    cxl.var8(b"o");
    cxl.var8(b"");
    cxl.var8(b"s");
    let mut md = Encoder::start(tid::MARKET_DATA_REQUEST_REJECT, 5, 1, 0);
    md.u8(0);
    md.i32(-1);
    md.var8(b"r");
    md.var16(b"t");
    let mut bytes = ack.finish();
    bytes.extend_from_slice(&cxl.finish());
    bytes.extend_from_slice(&md.finish());
    bytes.extend_from_slice(&reject());
    // A report that does not decode asks for nothing.
    bytes.extend_from_slice(&Encoder::start(tid::EXECUTION_REPORT, 281, 9, 0).finish());
    let step = ReadLoop::new().on_read(&mut s, &bytes);
    assert_eq!(step.actions.len(), 4);
    assert!(matches!(&step.actions[0], ReadAction::Deliver(InboundMsg::ExecutionReportAck(_))));
    assert!(matches!(&step.actions[1], ReadAction::Deliver(InboundMsg::OrderCancelReject(_))));
    assert!(matches!(&step.actions[2], ReadAction::Deliver(InboundMsg::MdRequestReject(_))));
    assert!(matches!(&step.actions[3], ReadAction::Deliver(InboundMsg::Reject(_))));
    assert_eq!(s.last_inbound_seq(), 9);
}

#[test]
fn reads_can_be_split_anywhere() {
    let mut bytes = encode_test_request(1, 0, b"a");
    bytes.extend_from_slice(&trade_frame());
    bytes.extend_from_slice(&book_frame(tid::MD_INCREMENTAL_BOOK_TICKER));
    bytes.extend_from_slice(&encode_heartbeat(8, 0, b"")[..12]);
    let mut s1 = session();
    let mut whole = ReadLoop::new();
    let once = whole.on_read(&mut s1, &bytes);
    let mut cut = 1;
    while cut < bytes.len() {
        let mut s2 = session();
        let mut l = ReadLoop::new();
        let mut a = l.on_read(&mut s2, &bytes[..cut]).actions;
        let b = l.on_read(&mut s2, &bytes[cut..]);
        a.extend(b.actions);
        assert_eq!(format!("{:?}", a), format!("{:?}", once.actions));
        assert_eq!(l.acc, whole.acc);
        assert_eq!(s2.last_inbound_seq(), s1.last_inbound_seq());
        cut += 1;
    }
    assert_eq!(once.actions.len(), 4);
    assert_eq!(whole.acc.len(), 12);
}
