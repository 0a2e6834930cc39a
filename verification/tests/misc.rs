use bytes::Bytes;
use bytes_utils::Str;
use fred::error::{RedisError, RedisErrorKind};
use fred::flatten::{flatten_value, FromRedis};
use fred::hashing::{HashPiece, NULL};
use fred::string_or_number::StringOrNumber;
use fred::util::{sha1_hash, to_hex};
use fred::value::{DoubleValue, RedisKey, RedisMap, RedisValue};

fn double(f: f64) -> DoubleValue {
    DoubleValue::new(f.to_bits(), Str::from(f.to_string()))
}

fn text(s: &str) -> RedisValue {
    RedisValue::from(s)
}

fn array(items: Vec<RedisValue>) -> RedisValue {
    RedisValue::Array(items)
}

fn show(pieces: &[HashPiece]) -> Vec<String> {
    pieces
        .iter()
        .map(|p| match p {
            HashPiece::Byte(b) => format!("byte {}", b),
            HashPiece::Int(i) => format!("int {}", i),
            HashPiece::Text(t) => format!("text {:?}", String::from_utf8_lossy(t)),
            HashPiece::Raw(r) => format!("raw {:?}", r),
        })
        .collect()
}

#[test]
fn sha1_of_known_texts() {
    assert_eq!(sha1_hash("hello world"), "2aae6c35c94fcfb415dbe95f408b9ce91ee846ed");
    assert_eq!(sha1_hash(""), "da39a3ee5e6b4b0d3255bfef95601890afd80709");
    assert_eq!(sha1_hash("return 1"), "e0e1f9fabfc9d4800c877a703b823ac0578ff8db");
    assert_eq!(sha1_hash("abc").len(), 40);
}

#[test]
fn hex_is_lower_case_and_two_digits_a_byte() {
    assert_eq!(to_hex(b""), "");
    assert_eq!(to_hex(&[0x00, 0x0f, 0xf0, 0xff, 0xab, 0x10]), "000ff0ffab10");
}

#[test]
fn error_keeps_kind_and_details() {
    let e = RedisError::new(RedisErrorKind::Timeout, "too slow");
    assert_eq!(e.kind(), RedisErrorKind::Timeout);
    assert_eq!(e.details(), "too slow");
    let p = RedisError::new_parse("bad");
    assert_eq!(p.kind(), RedisErrorKind::Parse);
    assert_eq!(p.details(), "bad");
}

#[test]
fn hash_pieces_begin_with_the_kind() {
    assert_eq!(show(&RedisValue::Boolean(true).hash_pieces()), vec!["byte 66", "byte 1"]);
    assert_eq!(show(&RedisValue::Boolean(false).hash_pieces()), vec!["byte 66", "byte 0"]);
    assert_eq!(show(&RedisValue::Integer(-3).hash_pieces()), vec!["byte 105", "int -3"]);
    assert_eq!(show(&text("ab").hash_pieces()), vec!["byte 115", "text \"ab\""]);
    assert_eq!(show(&RedisValue::from(&b"ab"[..]).hash_pieces()), vec!["byte 98", "raw [97, 98]"]);
    assert_eq!(show(&RedisValue::Null.hash_pieces()), vec!["byte 110", "text \"$-1\\r\\n\""]);
    assert_eq!(show(&RedisValue::Queued.hash_pieces()), vec!["byte 113", "text \"QUEUED\""]);
    let d = RedisValue::Double(double(1.0));
    assert_eq!(show(&d.hash_pieces()), vec!["byte 100".to_string(), format!("raw {:?}", 1.0f64.to_be_bytes())]);
    let e = RedisValue::Double(double(-1234.5678e-9));
    assert_eq!(
        show(&e.hash_pieces()),
        vec!["byte 100".to_string(), format!("raw {:?}", (-1234.5678e-9f64).to_be_bytes())]
    );
    assert_eq!(NULL, redis_protocol::resp2::types::NULL);
}

#[test]
fn hash_pieces_of_arrays_are_those_of_the_elements() {
    let v = array(vec![RedisValue::Integer(1), array(vec![text("a")]), RedisValue::Null]);
    assert_eq!(
        show(&v.hash_pieces()),
        vec!["byte 97", "byte 105", "int 1", "byte 97", "byte 115", "text \"a\"", "byte 110", "text \"$-1\\r\\n\""]
    );
    assert_eq!(show(&array(vec![]).hash_pieces()), vec!["byte 97"]);
}

#[test]
fn maps_are_not_hashable() {
    assert!(text("a").is_hashable());
    assert!(array(vec![text("a"), array(vec![RedisValue::Null])]).is_hashable());
    assert!(!RedisValue::Mapping(RedisMap::new()).is_hashable());
    assert!(!array(vec![text("a"), RedisValue::Mapping(RedisMap::new())]).is_hashable());
    assert!(!array(vec![array(vec![RedisValue::Mapping(RedisMap::new())])]).is_hashable());
}

#[test]
fn into_set_keeps_each_value_once() {
    let v = array(vec![text("a"), RedisValue::Integer(1), text("a"), text("b"), RedisValue::Integer(1), text("1")]);
    assert_eq!(v.into_set().unwrap(), vec![text("a"), RedisValue::Integer(1), text("b"), text("1")]);
    assert_eq!(array(vec![]).into_set().unwrap(), Vec::<RedisValue>::new());
    let nested = array(vec![array(vec![text("a")]), array(vec![text("a")]), array(vec![])]);
    assert_eq!(nested.into_set().unwrap(), vec![array(vec![text("a")]), array(vec![])]);
    assert_eq!(text("a").into_set().unwrap_err().kind(), RedisErrorKind::Parse);
    assert_eq!(RedisValue::Null.into_set().unwrap_err().kind(), RedisErrorKind::Parse);
    assert_eq!(RedisValue::Mapping(RedisMap::new()).into_set().unwrap_err().kind(), RedisErrorKind::Parse);
}

#[test]
fn string_or_number_equality() {
    assert_eq!(StringOrNumber::from("a"), StringOrNumber::from("a".to_string()));
    assert_eq!(StringOrNumber::from_static_str("a"), StringOrNumber::from(Str::from("a")));
    assert_ne!(StringOrNumber::from("a"), StringOrNumber::from("b"));
    assert_eq!(StringOrNumber::from(1i64), StringOrNumber::Number(1));
    assert_ne!(StringOrNumber::from(1i64), StringOrNumber::from(2i64));
    assert_ne!(StringOrNumber::from(1i64), StringOrNumber::from("1"));
    assert_eq!(StringOrNumber::from(double(1.0)), StringOrNumber::Double(double(1.0)));
    assert_eq!(StringOrNumber::from(double(1.0)), StringOrNumber::from(double(f64::from_bits(1.0f64.to_bits() + 2))));
    assert_ne!(StringOrNumber::from(double(1.0)), StringOrNumber::from(double(1.5)));
    assert_ne!(StringOrNumber::from(double(1.0)), StringOrNumber::from(1i64));
    let s = StringOrNumber::from("x");
    assert_eq!(s.clone(), s);
    assert_eq!(StringOrNumber::from(7u8), StringOrNumber::Number(7));
    assert_eq!(StringOrNumber::from(7u16), StringOrNumber::Number(7));
    assert_eq!(StringOrNumber::from(7u32), StringOrNumber::Number(7));
    assert_eq!(StringOrNumber::from(-7i8), StringOrNumber::Number(-7));
    assert_eq!(StringOrNumber::from(-7i16), StringOrNumber::Number(-7));
    assert_eq!(StringOrNumber::from(-7i32), StringOrNumber::Number(-7));
    assert_eq!(StringOrNumber::from(7u64), StringOrNumber::Number(7));
    assert_eq!(StringOrNumber::from(u64::MAX), StringOrNumber::Number(-1));
    assert_eq!(StringOrNumber::from(7usize), StringOrNumber::Number(7));
    assert_eq!(StringOrNumber::from(-7isize), StringOrNumber::Number(-7));
}

#[test]
fn string_or_number_to_and_from_values() {
    assert_eq!(StringOrNumber::from("a").into_arg(), text("a"));
    assert_eq!(StringOrNumber::from(5i64).into_arg(), RedisValue::Integer(5));
    assert_eq!(StringOrNumber::from(double(2.5)).into_arg(), RedisValue::Double(double(2.5)));
    assert_eq!(StringOrNumber::from_value(text("a")).unwrap(), StringOrNumber::from("a"));
    assert_eq!(StringOrNumber::from_value(RedisValue::Integer(5)).unwrap(), StringOrNumber::Number(5));
    assert_eq!(
        StringOrNumber::from_value(RedisValue::Double(double(2.5))).unwrap(),
        StringOrNumber::Double(double(2.5))
    );
    assert_eq!(StringOrNumber::from_value(RedisValue::from(&b"a"[..])).unwrap(), StringOrNumber::from("a"));
    assert_eq!(
        StringOrNumber::from_value(RedisValue::from(&b"\xff"[..])).unwrap_err().kind(),
        RedisErrorKind::Parse
    );
    for v in [RedisValue::Null, RedisValue::Queued, RedisValue::Boolean(true), array(vec![])] {
        assert_eq!(StringOrNumber::try_from(v).unwrap_err().kind(), RedisErrorKind::InvalidArgument);
    }
}

#[test]
fn values_from_plain_data() {
    assert_eq!(RedisValue::from(5u8), RedisValue::Integer(5));
    assert_eq!(RedisValue::from(5u16), RedisValue::Integer(5));
    assert_eq!(RedisValue::from(5u32), RedisValue::Integer(5));
    assert_eq!(RedisValue::from(-5i8), RedisValue::Integer(-5));
    assert_eq!(RedisValue::from(-5i16), RedisValue::Integer(-5));
    assert_eq!(RedisValue::from(-5i32), RedisValue::Integer(-5));
    assert_eq!(RedisValue::from(-5i64), RedisValue::Integer(-5));
    assert_eq!(RedisValue::from(true), RedisValue::Boolean(true));
    assert_eq!(RedisValue::from(()), RedisValue::Null);
    assert_eq!(RedisValue::from("a"), RedisValue::from_static_str("a"));
    assert_eq!(RedisValue::from("a".to_string()), RedisValue::from_static_str("a"));
    assert_eq!(RedisValue::from(&"a".to_string()), RedisValue::from_static_str("a"));
    assert_eq!(RedisValue::from(Str::from("a")), RedisValue::from_static_str("a"));
    assert_eq!(RedisValue::from(Bytes::from_static(b"a")), RedisValue::from_static(b"a"));
    assert_eq!(RedisValue::from(b"a".to_vec()), RedisValue::from_static(b"a"));
    assert_eq!(RedisValue::from(RedisKey::from("k")), RedisValue::from_static(b"k"));
    assert_eq!(RedisValue::from(RedisMap::new()), RedisValue::Mapping(RedisMap::new()));
    assert_eq!(RedisValue::from(vec![RedisValue::Null]), array(vec![RedisValue::Null]));
    assert_eq!(RedisValue::from(None), RedisValue::Null);
    assert_eq!(RedisValue::from(Some(RedisValue::Queued)), RedisValue::Queued);
}

#[test]
fn values_from_wide_integers() {
    assert_eq!(RedisValue::try_from(5u64).unwrap(), RedisValue::Integer(5));
    assert_eq!(RedisValue::try_from(i64::MAX as u64 - 1).unwrap(), RedisValue::Integer(i64::MAX - 1));
    assert_eq!(RedisValue::try_from(i64::MAX as u64).unwrap_err().kind(), RedisErrorKind::Unknown);
    assert_eq!(RedisValue::try_from(u64::MAX).unwrap_err().kind(), RedisErrorKind::Unknown);
    assert_eq!(RedisValue::try_from(5usize).unwrap(), RedisValue::Integer(5));
    assert_eq!(RedisValue::try_from(usize::MAX).unwrap_err().kind(), RedisErrorKind::Unknown);
    assert_eq!(RedisValue::try_from(5u128).unwrap(), RedisValue::Integer(5));
    assert_eq!(RedisValue::try_from(u128::MAX).unwrap_err().kind(), RedisErrorKind::Unknown);
    assert_eq!(RedisValue::try_from(i64::MAX as u128).unwrap_err().kind(), RedisErrorKind::Unknown);
    assert_eq!(RedisValue::try_from(-5i128).unwrap(), RedisValue::Integer(-5));
    assert_eq!(RedisValue::try_from(i64::MIN as i128).unwrap(), RedisValue::Integer(i64::MIN));
    assert_eq!(RedisValue::try_from(i64::MAX as i128).unwrap_err().kind(), RedisErrorKind::Unknown);
    assert_eq!(RedisValue::try_from(i128::MAX).unwrap_err().kind(), RedisErrorKind::Unknown);
    assert_eq!(RedisValue::try_from(i64::MIN as i128 - 1).unwrap(), RedisValue::Integer(i64::MAX));
}

#[test]
fn flatten_replaces_inner_arrays_by_their_elements() {
    let nested = array(vec![
        text("a"),
        array(vec![text("b"), array(vec![text("c"), array(vec![text("d")])])]),
        array(vec![]),
        array(vec![array(vec![text("e")])]),
    ]);
    assert_eq!(nested.clone().flatten_array_values(0), nested);
    assert_eq!(
        nested.clone().flatten_array_values(1),
        array(vec![text("a"), text("b"), array(vec![text("c"), array(vec![text("d")])]), array(vec![text("e")])])
    );
    assert_eq!(
        nested.clone().flatten_array_values(2),
        array(vec![text("a"), text("b"), array(vec![text("c"), text("d")]), array(vec![text("e")])])
    );
    assert_eq!(
        flatten_value(nested, 9),
        array(vec![text("a"), text("b"), array(vec![text("c"), text("d")]), array(vec![text("e")])])
    );
    let deep = array(vec![array(vec![array(vec![array(vec![text("x")])])])]);
    assert_eq!(deep.clone().flatten_array_values(1), array(vec![array(vec![array(vec![text("x")])])]));
    assert_eq!(deep.clone().flatten_array_values(2), array(vec![array(vec![text("x")])]));
    assert_eq!(deep.flatten_array_values(3), array(vec![array(vec![text("x")])]));
    assert_eq!(text("a").flatten_array_values(3), text("a"));
    assert_eq!(array(vec![]).flatten_array_values(3), array(vec![]));
}

#[test]
fn flatten_reaches_into_the_values_of_maps() {
    let mut map = RedisMap::new();
    map.insert(RedisKey::from("k"), array(vec![array(vec![text("a")]), text("b")]));
    map.insert(RedisKey::from("s"), text("c"));
    let mut inner = RedisMap::new();
    inner.insert(RedisKey::from("i"), array(vec![array(vec![text("x")])]));
    map.insert(RedisKey::from("m"), RedisValue::Mapping(inner.clone()));
    let mut expected = RedisMap::new();
    expected.insert(RedisKey::from("k"), array(vec![text("a"), text("b")]));
    expected.insert(RedisKey::from("s"), text("c"));
    expected.insert(RedisKey::from("m"), RedisValue::Mapping(inner));
    assert_eq!(RedisValue::Mapping(map.clone()).flatten_array_values(2), RedisValue::Mapping(expected));
    assert_eq!(RedisValue::Mapping(map.clone()).flatten_array_values(1), RedisValue::Mapping(map.clone()));
    assert_eq!(RedisValue::Mapping(map.clone()).flatten_array_values(0), RedisValue::Mapping(map));
}

#[test]
fn convert_goes_through_the_trait() {
    assert_eq!(text("12").convert::<i64>().unwrap(), 12);
    assert_eq!(text("x").convert::<i64>().unwrap_err().kind(), RedisErrorKind::Parse);
    assert_eq!(text("12").convert::<u64>().unwrap(), 12);
    assert_eq!(RedisValue::Integer(-1).convert::<u64>().unwrap_err().kind(), RedisErrorKind::Parse);
    assert_eq!(text("12").convert::<usize>().unwrap(), 12);
    assert_eq!(text("t").convert::<bool>().unwrap(), true);
    assert_eq!(RedisValue::Null.convert::<bool>().unwrap_err().kind(), RedisErrorKind::Parse);
    assert_eq!(RedisValue::Integer(5).convert::<String>().unwrap(), "5");
    assert_eq!(RedisValue::Null.convert::<String>().unwrap_err().kind(), RedisErrorKind::Parse);
    assert_eq!(text("k").convert::<RedisKey>().unwrap(), RedisKey::from("k"));
    assert_eq!(RedisValue::Null.convert::<RedisKey>().unwrap_err().kind(), RedisErrorKind::InvalidArgument);
    assert_eq!(text("k").convert::<RedisValue>().unwrap(), text("k"));
    assert_eq!(text("k").convert::<Vec<RedisValue>>().unwrap(), vec![text("k")]);
    assert_eq!(<i64 as FromRedis>::from_value(RedisValue::Integer(3)).unwrap(), 3);
}

#[test]
fn stream_replies_are_flattened_before_conversion() {
    let reply = array(vec![array(vec![text("stream"), array(vec![array(vec![text("id"), text("v")])])])]);
    let flat: Vec<RedisValue> = reply.clone().into_xread_response().unwrap();
    assert_eq!(flat, vec![text("stream"), array(vec![text("id"), text("v")])]);
    let flat: Vec<RedisValue> = reply.into_xread_value().unwrap();
    assert_eq!(flat, vec![text("stream"), array(vec![array(vec![text("id"), text("v")])])]);
}

#[test]
fn automatic_claims_give_cursor_and_entries() {
    let entries = array(vec![array(vec![text("1-0"), array(vec![text("f"), text("v")])])]);
    let v6 = array(vec![text("0-0"), entries.clone()]);
    let (cursor, values): (String, Vec<RedisValue>) = v6.into_xautoclaim_values().unwrap();
    assert_eq!(cursor, "0-0");
    assert_eq!(values, vec![text("1-0"), array(vec![text("f"), text("v")])]);
    let v7 = array(vec![text("5-0"), entries, array(vec![text("9-9")])]);
    let (cursor, values): (String, RedisValue) = v7.into_xautoclaim_values().unwrap();
    assert_eq!(cursor, "5-0");
    assert_eq!(values, array(vec![text("1-0"), array(vec![text("f"), text("v")])]));
    let bad_cursor = array(vec![RedisValue::Null, array(vec![])]);
    assert_eq!(
        bad_cursor.into_xautoclaim_values::<RedisValue>().unwrap_err().kind(),
        RedisErrorKind::Parse
    );
    assert_eq!(text("x").into_xautoclaim_values::<RedisValue>().unwrap_err().kind(), RedisErrorKind::Parse);
}
