use fred::text::{find_byte, find_last_byte, is_float, parse_i64, parse_u64, parse_upto};

#[test]
fn parse_u64_agrees_with_std() {
    for s in [
        "0", "1", "+1", "-1", "-0", "", "+", "-", "00", "0123", "18446744073709551615",
        "18446744073709551616", "184467440737095516150", "1a", "a1", " 1", "1 ", "+-1", "++1", "٣",
        "99999999999999999999999999999999",
    ] {
        assert_eq!(parse_u64(s.as_bytes()), s.parse::<u64>().ok(), "{:?}", s);
    }
    assert_eq!(parse_u64(b"18446744073709551615"), Some(u64::MAX));
    assert_eq!(parse_u64(b"\xff"), None);
}

#[test]
fn parse_i64_agrees_with_std() {
    for s in [
        "0", "-0", "+0", "1", "+1", "-1", "", "+", "-", "007", "-007", "9223372036854775807",
        "9223372036854775808", "-9223372036854775808", "-9223372036854775809", "1-", "1+", "--1",
        "+-1", "1.0", "1e1", "0x1", "99999999999999999999999999",
    ] {
        assert_eq!(parse_i64(s.as_bytes()), s.parse::<i64>().ok(), "{:?}", s);
    }
    assert_eq!(parse_i64(b"-9223372036854775808"), Some(i64::MIN));
    assert_eq!(parse_i64(b"9223372036854775807"), Some(i64::MAX));
}

#[test]
fn parse_upto_respects_the_bound() {
    assert_eq!(parse_upto(b"16383", 16383), Some(16383));
    assert_eq!(parse_upto(b"16384", 16383), None);
    assert_eq!(parse_upto(b"0", 0), Some(0));
    assert_eq!(parse_upto(b"1", 0), None);
    assert_eq!(parse_upto(b"9", 8), None);
    assert_eq!(parse_upto(b"65535", 65535), Some(65535));
    assert_eq!(parse_upto(b"65536", 65535), None);
    assert_eq!(parse_upto(b"000000000000000000000000000001", 5), Some(1));
}

#[test]
fn find_byte_gives_first_and_last_positions() {
    assert_eq!(find_byte(b"a:b:c", b':', 0), 1);
    assert_eq!(find_byte(b"a:b:c", b':', 2), 3);
    assert_eq!(find_byte(b"a:b:c", b':', 4), 5);
    assert_eq!(find_byte(b"", b':', 0), 0);
    assert_eq!(find_last_byte(b"a:b:c", b':'), Some(3));
    assert_eq!(find_last_byte(b":", b':'), Some(0));
    assert_eq!(find_last_byte(b"abc", b':'), None);
    assert_eq!(find_last_byte(b"", b':'), None);
}

#[test]
fn is_float_agrees_with_std() {
    for s in [
        "", "0", "1", "-1", "+1", "1.", ".1", ".", "1.1", "1..1", "1e1", "1e", "e1", "1e+1", "1e-1",
        "1e+-1", "1E1", "1.e1", ".1e1", ".e1", "inf", "Inf", "INF", "-inf", "+inf", "infinity",
        "INFINITY", "infinit", "nan", "NAN", "-nan", "nanx", "+", "-", "++1", "1 ", " 1", "1f", "0x1",
        "1e1e1", "1e1.0", "123456789012345678901234567890", "1e999", "-.5", "+.5e-3", "i", "in", "n",
    ] {
        assert_eq!(is_float(s.as_bytes()), s.parse::<f64>().is_ok(), "{:?}", s);
    }
    assert!(!is_float(b"\xff"));
}
