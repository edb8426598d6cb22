use tapnow_launcher::config::{env_bool, env_port};
use tapnow_launcher::text::{decimal, parse_u16_str, IntErrorKind};

#[test]
fn decimal_writes_digits() {
    assert_eq!(decimal(0), "0");
    assert_eq!(decimal(7), "7");
    assert_eq!(decimal(8080), "8080");
    assert_eq!(decimal(65535), "65535");
    assert_eq!(decimal(18446744073709551615), "18446744073709551615");
}

#[test]
fn parse_accepts_ports() {
    assert_eq!(parse_u16_str("8080"), Ok(8080));
    assert_eq!(parse_u16_str("+80"), Ok(80));
    assert_eq!(parse_u16_str("0"), Ok(0));
    assert_eq!(parse_u16_str("065535"), Ok(65535));
}

#[test]
fn parse_refuses_like_std() {
    assert_eq!(parse_u16_str(""), Err(IntErrorKind::Empty));
    assert_eq!(parse_u16_str("+"), Err(IntErrorKind::InvalidDigit));
    assert_eq!(parse_u16_str("-"), Err(IntErrorKind::InvalidDigit));
    assert_eq!(parse_u16_str("-1"), Err(IntErrorKind::InvalidDigit));
    assert_eq!(parse_u16_str("12a"), Err(IntErrorKind::InvalidDigit));
    assert_eq!(parse_u16_str(" 80"), Err(IntErrorKind::InvalidDigit));
    assert_eq!(parse_u16_str("65536"), Err(IntErrorKind::PosOverflow));
    assert_eq!(parse_u16_str("99999a"), Err(IntErrorKind::PosOverflow));
    assert_eq!(parse_u16_str("٣"), Err(IntErrorKind::InvalidDigit));
}

#[test]
fn parse_agrees_with_std_on_samples() {
    let samples = [
        "", "+", "-", "0", "1", "+0", "-0", "00080", "65535", "65536", "70000", "1a", "a1",
        "++1", "+-1", "9999999999", " 1", "1 ", "12345",
    ];
    for s in samples {
        let ours = parse_u16_str(s);
        match s.parse::<u16>() {
            Ok(v) => assert_eq!(ours, Ok(v), "{s:?}"),
            Err(e) => {
                let kind = match e.kind() {
                    std::num::IntErrorKind::Empty => IntErrorKind::Empty,
                    std::num::IntErrorKind::InvalidDigit => IntErrorKind::InvalidDigit,
                    std::num::IntErrorKind::PosOverflow => IntErrorKind::PosOverflow,
                    other => panic!("unexpected kind {other:?}"),
                };
                assert_eq!(ours, Err(kind), "{s:?}");
            }
        }
    }
}

#[test]
fn port_round_trips_through_decimal() {
    for n in [0u16, 1, 9, 10, 99, 100, 5100, 8080, 9527, 65535] {
        assert_eq!(parse_u16_str(&decimal(n as u64)), Ok(n));
    }
}

#[test]
fn env_port_falls_back() {
    assert_eq!(env_port(None, 8080), 8080);
    assert_eq!(env_port(Some("8081"), 8080), 8081);
    assert_eq!(env_port(Some("abc"), 5100), 5100);
    assert_eq!(env_port(Some("70000"), 9527), 9527);
    assert_eq!(env_port(Some(""), 9527), 9527);
    assert_eq!(env_port(Some(" 8081"), 8080), 8080);
}

#[test]
fn env_bool_reads_switches() {
    assert!(env_bool(None, true));
    assert!(!env_bool(None, false));
    assert!(env_bool(Some("1"), false));
    assert!(env_bool(Some(" TRUE "), false));
    assert!(env_bool(Some("Yes"), false));
    assert!(env_bool(Some("\ton\n"), false));
    assert!(env_bool(Some("\u{3000}On\u{a0}"), false));
    assert!(!env_bool(Some("0"), true));
    assert!(!env_bool(Some("false"), true));
    assert!(!env_bool(Some(""), true));
    assert!(!env_bool(Some("y"), true));
    assert!(!env_bool(Some("o n"), true));
}
