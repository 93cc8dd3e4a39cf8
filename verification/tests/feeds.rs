//! The sidecar's lines, the perpetual feed and the clock.
use mm::clock::{low_64_bits, micros_after, millis_after, WallClock};
use mm::fix::time::UnixTime;
use mm::perp::{parse_perp_message, perp_quote};
use mm::search::ends_with;
use mm::sidecar::{
    extract_int_field, extract_str_field, hedge_request, number_field, running_line, startup_line,
    RunningLine, StartupLine,
};
use mm::text::{push_decimal, push_hexadecimal, push_padded};

#[test]
fn number_fields() {
    let line = b"{\"bid\": \t-12.5e+3,\"ask\":7}";
    assert_eq!(number_field(line, b"\"bid\":"), Some(&b"-12.5e+3"[..]));
    assert_eq!(number_field(line, b"\"ask\":"), Some(&b"7"[..]));
    assert_eq!(number_field(line, b"\"px\":"), None);
    assert_eq!(number_field(b"{\"bid\":null}", b"\"bid\":"), None);
    assert_eq!(number_field(b"{\"bid\":", b"\"bid\":"), None);
}

#[test]
fn the_first_key_counts() {
    let line = b"{\"qty\":1,\"qty\":2}";
    assert_eq!(number_field(line, b"\"qty\":"), Some(&b"1"[..]));
    // A line of more than 64 bytes.
    let mut long = vec![b'x'; 100];
    long.extend_from_slice(line);
    assert_eq!(number_field(&long, b"\"qty\":"), Some(&b"1"[..]));
}

#[test]
fn string_fields() {
    assert_eq!(extract_str_field(b"{\"err\": \"oops\"}", b"\"err\":"), Some(&b"oops"[..]));
    assert_eq!(extract_str_field(b"{\"err\":\"\"}", b"\"err\":"), Some(&b""[..]));
    assert_eq!(extract_str_field(b"{\"err\":null}", b"\"err\":"), None);
    assert_eq!(extract_str_field(b"{\"err\":\"open", b"\"err\":"), None);
    assert_eq!(extract_str_field(b"{}", b"\"err\":"), None);
}

#[test]
fn integer_fields() {
    assert_eq!(extract_int_field(b"{\"id\": 42}", b"\"id\":"), Some(42));
    assert_eq!(extract_int_field(b"{\"id\":-7,", b"\"id\":"), Some(-7));
    assert_eq!(extract_int_field(b"{\"id\":-0}", b"\"id\":"), Some(0));
    assert_eq!(extract_int_field(b"{\"id\":0009}", b"\"id\":"), Some(9));
    assert_eq!(extract_int_field(b"{\"id\":9223372036854775807}", b"\"id\":"), Some(i64::MAX));
    assert_eq!(extract_int_field(b"{\"id\":-9223372036854775808}", b"\"id\":"), Some(i64::MIN));
    assert_eq!(extract_int_field(b"{\"id\":9223372036854775808}", b"\"id\":"), None);
    assert_eq!(extract_int_field(b"{\"id\":-9223372036854775809}", b"\"id\":"), None);
    assert_eq!(extract_int_field(b"{\"id\":99999999999999999999999}", b"\"id\":"), None);
    assert_eq!(extract_int_field(b"{\"id\":-}", b"\"id\":"), None);
    assert_eq!(extract_int_field(b"{\"id\":1-2}", b"\"id\":"), None);
    assert_eq!(extract_int_field(b"{\"id\":--1}", b"\"id\":"), None);
    assert_eq!(extract_int_field(b"{\"id\":x}", b"\"id\":"), None);
    assert_eq!(extract_int_field(b"{}", b"\"id\":"), None);
}

#[test]
fn startup_lines() {
    assert!(matches!(startup_line(b"{\"ready\": true}"), StartupLine::Ready));
    assert!(matches!(startup_line(b"{\"ready\": false}"), StartupLine::NotReady));
    match startup_line(b"{\"bbo\":true,\"bid\":1.5,\"ask\": 2.5}") {
        StartupLine::Bbo(t) => assert_eq!((t.bid, t.ask), (b"1.5".to_vec(), b"2.5".to_vec())),
        other => panic!("{:?}", other),
    }
    assert!(matches!(startup_line(b"{\"bbo\":true,\"bid\":1.5}"), StartupLine::Other));
    assert!(matches!(startup_line(b"hello"), StartupLine::Other));
    assert!(matches!(startup_line(b""), StartupLine::Other));
}

#[test]
fn running_lines() {
    match running_line(b"{\"bbo\": true,\"bid\":1,\"ask\":2}") {
        RunningLine::Bbo(Some(t)) => assert_eq!((t.bid, t.ask), (b"1".to_vec(), b"2".to_vec())),
        other => panic!("{:?}", other),
    }
    assert!(matches!(running_line(b"{\"bbo\":true}"), RunningLine::Bbo(None)));
    assert!(matches!(running_line(b"{\"ok\":true}"), RunningLine::NoId));
    match running_line(b"{\"id\":7,\"ok\": true,\"qty\":0.01,\"px\":2000.5,\"err\":null}") {
        RunningLine::Reply(r) => {
            assert_eq!((r.id, r.ok), (7, true));
            assert_eq!(r.qty, Some(b"0.01".to_vec()));
            assert_eq!(r.px, Some(b"2000.5".to_vec()));
            assert_eq!(r.err, None);
        }
        other => panic!("{:?}", other),
    }
    match running_line(b"{\"id\":-1,\"ok\":false,\"err\":\"no\"}") {
        RunningLine::Reply(r) => {
            assert_eq!((r.id, r.ok), (u64::MAX, false));
            assert_eq!((r.qty, r.px), (None, None));
            assert_eq!(r.err, Some(b"no".to_vec()));
        }
        other => panic!("{:?}", other),
    }
}

#[test]
fn hedge_requests_are_exact() {
    assert_eq!(
        hedge_request(12, "SELL", "0.005000", "2345.67"),
        "{\"id\":12,\"side\":\"SELL\",\"qty\":0.005000,\"ref_price\":2345.67}\n"
    );
}

#[test]
fn perp_messages() {
    let doc = "{\"stream\":\"ethusdt@bookTicker\",\"data\":{\"b\":\"1.5\",\"a\":\"2.5\"}}";
    assert_eq!(parse_perp_message(doc), Some(("1.5".to_string(), "2.5".to_string())));
    let other = "{\"stream\":\"ethusdt@depth\",\"data\":{\"b\":\"1.5\",\"a\":\"2.5\"}}";
    assert_eq!(parse_perp_message(other), None);
    let number = "{\"stream\":\"ethusdt@bookTicker\",\"data\":{\"b\":1.5,\"a\":\"2.5\"}}";
    assert_eq!(parse_perp_message(number), None);
    assert_eq!(parse_perp_message("{\"stream\":\"x@bookTicker\"}"), None);
    assert_eq!(parse_perp_message("not json"), None);
}

#[test]
fn perp_quotes_need_all_three() {
    let s = |t: &str| Some(t.to_string());
    assert_eq!(perp_quote(s("@bookTicker"), s("1"), s("2")), Some(("1".to_string(), "2".to_string())));
    assert_eq!(perp_quote(s("@bookTicker "), s("1"), s("2")), None);
    assert_eq!(perp_quote(None, s("1"), s("2")), None);
    assert_eq!(perp_quote(s("@bookTicker"), None, s("2")), None);
    assert_eq!(perp_quote(s("@bookTicker"), s("1"), None), None);
}

#[test]
fn suffixes() {
    assert!(ends_with(b"abc", b"bc"));
    assert!(ends_with(b"abc", b""));
    assert!(!ends_with(b"abc", b"ab"));
    assert!(!ends_with(b"c", b"bc"));
}

#[test]
fn clock_arithmetic() {
    assert_eq!(millis_after(1_000, 2_999_999), Some(1_002));
    assert_eq!(micros_after(1_000, 2_999_999), Some(1_002_999));
    assert_eq!(millis_after(u64::MAX, 1_000_000), None);
    assert_eq!(micros_after(u64::MAX, 0), None);
    assert_eq!(micros_after(u64::MAX / 1000, u64::MAX), None);
}

#[test]
fn a_wall_clock_needs_an_instant() {
    assert!(WallClock::start_when(None).is_none());
    let c = WallClock::start_when(Some(UnixTime { secs: 100, nanos: 0 })).unwrap();
    let ms = c.now_ms().unwrap();
    assert!(ms >= 100_000 && ms < 160_000);
    assert_eq!(low_64_bits(7), 7);
    assert_eq!(low_64_bits((1u128 << 64) + 5), 5);
}

#[test]
fn the_wall_clock_goes_on() {
    let c = WallClock::start().unwrap();
    let a = c.now_us().unwrap();
    let b = c.now_us().unwrap();
    assert!(b >= a && a > 1_600_000_000_000_000);
    assert!(c.now_ms().unwrap() >= a / 1000);
}

#[test]
fn numbers_as_text() {
    let mut s = String::new();
    push_decimal(&mut s, 0);
    push_decimal(&mut s, 1234);
    push_hexadecimal(&mut s, 0xdead_beef);
    push_padded(&mut s, 7, 3);
    push_padded(&mut s, 12_345, 3);
    assert_eq!(s, "01234deadbeef00712345");
}
