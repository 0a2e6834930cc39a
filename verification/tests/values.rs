use bytes::Bytes;
use bytes_utils::Str;
use fred::error::RedisErrorKind;
use fred::equality::doubles_close;
use fred::value::{DoubleValue, RedisKey, RedisMap, RedisValue, RedisValueKind};

fn double(f: f64) -> RedisValue {
    RedisValue::Double(DoubleValue::new(f.to_bits(), Str::from(f.to_string())))
}

fn text(s: &str) -> RedisValue {
    RedisValue::from(s)
}

fn bytes(b: &[u8]) -> RedisValue {
    RedisValue::from(b)
}

fn key(s: &str) -> RedisKey {
    RedisKey::from(s)
}

fn map_of(pairs: Vec<(&str, RedisValue)>) -> RedisMap {
    let mut map = RedisMap::new();
    for (k, v) in pairs {
        map.insert(key(k), v);
    }
    map
}

#[test]
fn kind_names() {
    assert_eq!(RedisValueKind::Boolean.to_string(), "Boolean");
    assert_eq!(RedisValueKind::Integer.to_string(), "Integer");
    assert_eq!(RedisValueKind::Double.to_string(), "Double");
    assert_eq!(RedisValueKind::String.to_string(), "String");
    assert_eq!(RedisValueKind::Bytes.to_string(), "Bytes");
    assert_eq!(RedisValueKind::Null.to_string(), "nil");
    assert_eq!(RedisValueKind::Queued.to_string(), "Queued");
    assert_eq!(RedisValueKind::Mapping.to_string(), "Map");
    assert_eq!(RedisValueKind::Array.to_string(), "Array");
}

#[test]
fn kind_of_each_value() {
    assert_eq!(RedisValue::Boolean(true).kind(), RedisValueKind::Boolean);
    assert_eq!(RedisValue::Integer(1).kind(), RedisValueKind::Integer);
    assert_eq!(double(1.0).kind(), RedisValueKind::Double);
    assert_eq!(text("a").kind(), RedisValueKind::String);
    assert_eq!(bytes(b"a").kind(), RedisValueKind::Bytes);
    assert_eq!(RedisValue::Null.kind(), RedisValueKind::Null);
    assert_eq!(RedisValue::Queued.kind(), RedisValueKind::Queued);
    assert_eq!(RedisValue::Mapping(RedisMap::new()).kind(), RedisValueKind::Mapping);
    assert_eq!(RedisValue::Array(vec![]).kind(), RedisValueKind::Array);
}

#[test]
fn predicates_tell_the_variants_apart() {
    assert!(RedisValue::Null.is_null());
    assert!(!RedisValue::Integer(0).is_null());
    assert!(RedisValue::Integer(0).is_integer());
    assert!(!text("0").is_integer());
    assert!(text("x").is_string());
    assert!(!bytes(b"x").is_string());
    assert!(bytes(b"x").is_bytes());
    assert!(RedisValue::Queued.is_queued());
    assert!(!text("QUEUED").is_queued());
    assert!(RedisValue::Array(vec![]).is_array());
    assert!(RedisValue::Array(vec![]).is_aggregate_type());
    assert!(RedisValue::Mapping(RedisMap::new()).is_aggregate_type());
    assert!(RedisValue::Mapping(RedisMap::new()).is_map());
    assert!(!RedisValue::Array(vec![]).is_map());
    assert!(!text("x").is_aggregate_type());
}

#[test]
fn ok_status() {
    assert!(RedisValue::new_ok().is_ok());
    assert_eq!(RedisValue::new_ok().as_bytes(), Some(&b"OK"[..]));
    assert!(text("OK").is_ok());
    assert!(!text("ok").is_ok());
    assert!(!text("OK ").is_ok());
    assert!(!bytes(b"OK").is_ok());
    assert!(!RedisValue::Null.is_ok());
}

#[test]
fn from_static_makes_bytes_and_text() {
    assert_eq!(RedisValue::from_static(b"ab"), bytes(b"ab"));
    assert_eq!(RedisValue::from_static_str("ab"), text("ab"));
    assert_ne!(RedisValue::from_static(b"ab"), RedisValue::from_static_str("ab"));
}

#[test]
fn is_boolean_accepts_ten_spellings() {
    for s in ["true", "false", "t", "f", "TRUE", "FALSE", "T", "F", "1", "0"] {
        assert!(text(s).is_boolean(), "{}", s);
    }
    for s in ["True", "yes", "", "2", "tr", "truee"] {
        assert!(!text(s).is_boolean(), "{}", s);
    }
    assert!(RedisValue::Boolean(false).is_boolean());
    assert!(RedisValue::Integer(0).is_boolean());
    assert!(RedisValue::Integer(1).is_boolean());
    assert!(!RedisValue::Integer(2).is_boolean());
    assert!(!RedisValue::Integer(-1).is_boolean());
    assert!(!bytes(b"true").is_boolean());
    assert!(!RedisValue::Array(vec![RedisValue::Boolean(true)]).is_boolean());
    assert!(!RedisValue::Null.is_boolean());
}

#[test]
fn as_bool_reads_scalars_and_single_element_arrays() {
    assert_eq!(RedisValue::Boolean(true).as_bool(), Some(true));
    assert_eq!(RedisValue::Integer(0).as_bool(), Some(false));
    assert_eq!(RedisValue::Integer(1).as_bool(), Some(true));
    assert_eq!(RedisValue::Integer(2).as_bool(), None);
    for s in ["true", "TRUE", "t", "T", "1"] {
        assert_eq!(text(s).as_bool(), Some(true));
    }
    for s in ["false", "FALSE", "f", "F", "0"] {
        assert_eq!(text(s).as_bool(), Some(false));
    }
    assert_eq!(text("True").as_bool(), None);
    assert_eq!(RedisValue::Array(vec![text("t")]).as_bool(), Some(true));
    assert_eq!(RedisValue::Array(vec![RedisValue::Array(vec![text("0")])]).as_bool(), Some(false));
    assert_eq!(RedisValue::Array(vec![text("t"), text("t")]).as_bool(), None);
    assert_eq!(RedisValue::Array(vec![]).as_bool(), None);
    assert_eq!(RedisValue::Null.as_bool(), None);
    assert_eq!(bytes(b"true").as_bool(), None);
    assert_eq!(double(1.0).as_bool(), None);
}

#[test]
fn as_i64_reads_integers_and_decimal_text() {
    assert_eq!(RedisValue::Integer(-5).as_i64(), Some(-5));
    assert_eq!(text("42").as_i64(), Some(42));
    assert_eq!(text("+42").as_i64(), Some(42));
    assert_eq!(text("-42").as_i64(), Some(-42));
    assert_eq!(text("0042").as_i64(), Some(42));
    assert_eq!(text("9223372036854775807").as_i64(), Some(i64::MAX));
    assert_eq!(text("-9223372036854775808").as_i64(), Some(i64::MIN));
    assert_eq!(text("9223372036854775808").as_i64(), None);
    assert_eq!(text("-9223372036854775809").as_i64(), None);
    for s in ["", "+", "-", " 1", "1 ", "1.0", "0x10", "--1", "1e3", "١"] {
        assert_eq!(text(s).as_i64(), s.parse::<i64>().ok(), "{:?}", s);
        assert_eq!(text(s).as_i64(), None, "{:?}", s);
    }
    assert_eq!(RedisValue::Array(vec![text("7")]).as_i64(), Some(7));
    assert_eq!(RedisValue::Array(vec![text("7"), text("8")]).as_i64(), None);
    assert_eq!(RedisValue::Null.as_i64(), None);
    assert_eq!(bytes(b"7").as_i64(), None);
    assert_eq!(RedisValue::Boolean(true).as_i64(), None);
}

#[test]
fn as_u64_reads_non_negative_numbers() {
    assert_eq!(RedisValue::Integer(5).as_u64(), Some(5));
    assert_eq!(RedisValue::Integer(0).as_u64(), Some(0));
    assert_eq!(RedisValue::Integer(-1).as_u64(), None);
    assert_eq!(RedisValue::Integer(i64::MAX).as_u64(), Some(i64::MAX as u64));
    assert_eq!(text("18446744073709551615").as_u64(), Some(u64::MAX));
    assert_eq!(text("18446744073709551616").as_u64(), None);
    assert_eq!(text("+7").as_u64(), Some(7));
    for s in ["-0", "-7", "", "+", "7a", "99999999999999999999999"] {
        assert_eq!(text(s).as_u64(), s.parse::<u64>().ok(), "{:?}", s);
        assert_eq!(text(s).as_u64(), None, "{:?}", s);
    }
    assert_eq!(RedisValue::Array(vec![RedisValue::Integer(3)]).as_u64(), Some(3));
    assert_eq!(RedisValue::Array(vec![]).as_u64(), None);
    assert_eq!(RedisValue::Null.as_u64(), None);
}

#[test]
fn as_usize_reads_non_negative_numbers() {
    assert_eq!(RedisValue::Integer(5).as_usize(), Some(5));
    assert_eq!(RedisValue::Integer(-5).as_usize(), None);
    assert_eq!(text("12").as_usize(), Some(12));
    assert_eq!(text("-12").as_usize(), None);
    assert_eq!(text("18446744073709551615").as_usize(), "18446744073709551615".parse::<usize>().ok());
    assert_eq!(RedisValue::Array(vec![text("12")]).as_usize(), Some(12));
    assert_eq!(RedisValue::Null.as_usize(), None);
}

#[test]
fn into_integer_turns_decimal_text_into_an_integer() {
    assert_eq!(text("12").into_integer(), Ok(RedisValue::Integer(12)));
    assert_eq!(RedisValue::Integer(3).into_integer(), Ok(RedisValue::Integer(3)));
    assert_eq!(text("abc").into_integer(), Err(text("abc")));
    assert_eq!(text("").into_integer(), Err(text("")));
    assert_eq!(RedisValue::Null.into_integer(), Err(RedisValue::Null));
    assert_eq!(bytes(b"12").into_integer(), Err(bytes(b"12")));
    let array = RedisValue::Array(vec![text("12")]);
    assert_eq!(array.clone().into_integer(), Err(array));
}

#[test]
fn is_double_reads_numbers_as_text() {
    assert!(double(0.5).is_double());
    for s in [
        "1", "1.5", "-1.5", "+1.5", ".5", "5.", "1e5", "1E5", "1e+5", "1e-5", "1.5e10", "inf", "+inf",
        "-inf", "INF", "Infinity", "-infinity", "nan", "NaN", "+nan", "007", "0.0",
    ] {
        assert!(text(s).is_double(), "{:?}", s);
        assert!(s.parse::<f64>().is_ok(), "{:?}", s);
    }
    for s in ["", ".", "+", "-", "e5", "1e", "1e+", "1.5.5", "abc", " 1", "1 ", "infi", "na", "1e5.5", "--1", "1_0", "0x10"] {
        assert!(!text(s).is_double(), "{:?}", s);
        assert!(s.parse::<f64>().is_err(), "{:?}", s);
    }
    assert!(!RedisValue::Integer(1).is_double());
    assert!(!bytes(b"1.5").is_double());
    assert!(!RedisValue::Null.is_double());
}

#[test]
fn text_of_scalars() {
    assert_eq!(RedisValue::Boolean(true).as_string(), Some("true".to_string()));
    assert_eq!(RedisValue::Boolean(false).as_string(), Some("false".to_string()));
    assert_eq!(double(2.5).as_string(), Some("2.5".to_string()));
    assert_eq!(text("hi").as_string(), Some("hi".to_string()));
    assert_eq!(bytes(b"hi").as_string(), Some("hi".to_string()));
    assert_eq!(bytes(b"\xff").as_string(), None);
    assert_eq!(RedisValue::Integer(-12).as_string(), Some("-12".to_string()));
    assert_eq!(RedisValue::Integer(i64::MIN).as_string(), Some(i64::MIN.to_string()));
    assert_eq!(RedisValue::Queued.as_string(), Some("QUEUED".to_string()));
    assert_eq!(RedisValue::Null.as_string(), None);
    assert_eq!(RedisValue::Array(vec![text("hi")]).as_string(), None);
    assert_eq!(RedisValue::Mapping(RedisMap::new()).as_string(), None);
    assert_eq!(text("hi").as_str(), Some("hi".to_string()));
    assert_eq!(bytes(b"\xff").as_str(), None);
    assert_eq!(RedisValue::Array(vec![text("hi")]).as_str(), None);
}

#[test]
fn lossy_text_replaces_malformed_bytes() {
    assert_eq!(bytes(b"a\xffb").as_str_lossy(), Some("a\u{fffd}b".to_string()));
    assert_eq!(bytes(b"ab").as_str_lossy(), Some("ab".to_string()));
    assert_eq!(text("ab").as_str_lossy(), Some("ab".to_string()));
    assert_eq!(RedisValue::Integer(1).as_str_lossy(), Some("1".to_string()));
    assert_eq!(RedisValue::Boolean(true).as_str_lossy(), Some("true".to_string()));
    assert_eq!(RedisValue::Queued.as_str_lossy(), Some("QUEUED".to_string()));
    assert_eq!(RedisValue::Null.as_str_lossy(), None);
    assert_eq!(RedisValue::Array(vec![]).as_str_lossy(), None);
}

#[test]
fn into_string_also_looks_into_single_element_arrays() {
    assert_eq!(text("hi").into_string(), Some("hi".to_string()));
    assert_eq!(RedisValue::Integer(5).into_string(), Some("5".to_string()));
    assert_eq!(double(-0.25).into_string(), Some("-0.25".to_string()));
    assert_eq!(RedisValue::Boolean(true).into_string(), Some("true".to_string()));
    assert_eq!(bytes(b"\xc3\xa9").into_string(), Some("é".to_string()));
    assert_eq!(bytes(b"\xc3").into_string(), None);
    assert_eq!(RedisValue::Queued.into_string(), Some("QUEUED".to_string()));
    assert_eq!(RedisValue::Array(vec![text("hi")]).into_string(), Some("hi".to_string()));
    assert_eq!(
        RedisValue::Array(vec![RedisValue::Array(vec![RedisValue::Integer(1)])]).into_string(),
        Some("1".to_string())
    );
    assert_eq!(RedisValue::Array(vec![text("a"), text("b")]).into_string(), None);
    assert_eq!(RedisValue::Array(vec![]).into_string(), None);
    assert_eq!(RedisValue::Null.into_string(), None);
    assert_eq!(RedisValue::Mapping(RedisMap::new()).into_string(), None);
}

#[test]
fn shared_text_of_values() {
    let show = |v: Option<Str>| v.map(|s| s.to_string());
    assert_eq!(show(RedisValue::Boolean(true).as_bytes_str()), Some("true".to_string()));
    assert_eq!(show(RedisValue::Boolean(false).into_bytes_str()), Some("false".to_string()));
    assert_eq!(show(double(1.25).as_bytes_str()), Some("1.25".to_string()));
    assert_eq!(show(double(1.25).into_bytes_str()), Some("1.25".to_string()));
    assert_eq!(show(text("x").as_bytes_str()), Some("x".to_string()));
    assert_eq!(show(text("x").into_bytes_str()), Some("x".to_string()));
    assert_eq!(show(bytes(b"x").as_bytes_str()), Some("x".to_string()));
    assert_eq!(show(bytes(b"\xff").as_bytes_str()), None);
    assert_eq!(show(bytes(b"\xff").into_bytes_str()), None);
    assert_eq!(show(RedisValue::Integer(-3).as_bytes_str()), Some("-3".to_string()));
    assert_eq!(show(RedisValue::Integer(-3).into_bytes_str()), Some("-3".to_string()));
    assert_eq!(show(RedisValue::Queued.as_bytes_str()), Some("QUEUED".to_string()));
    assert_eq!(show(RedisValue::Array(vec![text("x")]).as_bytes_str()), Some("x".to_string()));
    assert_eq!(show(RedisValue::Array(vec![text("x")]).into_bytes_str()), Some("x".to_string()));
    assert_eq!(show(RedisValue::Array(vec![]).as_bytes_str()), None);
    assert_eq!(show(RedisValue::Null.as_bytes_str()), None);
    assert_eq!(show(RedisValue::Null.into_bytes_str()), None);
}

#[test]
fn bytes_of_values() {
    assert_eq!(text("ab").as_bytes(), Some(&b"ab"[..]));
    assert_eq!(bytes(b"\xff").as_bytes(), Some(&b"\xff"[..]));
    assert_eq!(RedisValue::Queued.as_bytes(), Some(&b"QUEUED"[..]));
    assert_eq!(RedisValue::Integer(1).as_bytes(), None);
    assert_eq!(RedisValue::Null.as_bytes(), None);
    assert_eq!(RedisValue::Array(vec![text("ab")]).as_bytes(), None);

    assert_eq!(text("ab").into_owned_bytes(), Some(b"ab".to_vec()));
    assert_eq!(bytes(b"\xff").into_owned_bytes(), Some(b"\xff".to_vec()));
    assert_eq!(RedisValue::Queued.into_owned_bytes(), Some(b"QUEUED".to_vec()));
    assert_eq!(RedisValue::Integer(-10).into_owned_bytes(), Some(b"-10".to_vec()));
    assert_eq!(RedisValue::Array(vec![bytes(b"z")]).into_owned_bytes(), Some(b"z".to_vec()));
    assert_eq!(RedisValue::Array(vec![]).into_owned_bytes(), None);
    assert_eq!(RedisValue::Boolean(true).into_owned_bytes(), None);
    assert_eq!(double(1.0).into_owned_bytes(), None);
    assert_eq!(RedisValue::Null.into_owned_bytes(), None);

    assert_eq!(text("ab").into_bytes(), Some(Bytes::from_static(b"ab")));
    assert_eq!(bytes(b"\xff").into_bytes(), Some(Bytes::from_static(b"\xff")));
    assert_eq!(RedisValue::Queued.into_bytes(), Some(Bytes::from_static(b"QUEUED")));
    assert_eq!(RedisValue::Integer(77).into_bytes(), Some(Bytes::from_static(b"77")));
    assert_eq!(RedisValue::Array(vec![text("q")]).into_bytes(), Some(Bytes::from_static(b"q")));
    assert_eq!(RedisValue::Array(vec![text("q"), text("r")]).into_bytes(), None);
    assert_eq!(RedisValue::Boolean(true).into_bytes(), None);
    assert_eq!(RedisValue::Null.into_bytes(), None);
}

#[test]
fn array_length_and_single_element() {
    assert_eq!(RedisValue::Array(vec![]).array_len(), Some(0));
    assert_eq!(RedisValue::Array(vec![RedisValue::Null, RedisValue::Null]).array_len(), Some(2));
    assert_eq!(RedisValue::Null.array_len(), None);
    assert_eq!(RedisValue::Mapping(RedisMap::new()).array_len(), None);
    assert!(RedisValue::Array(vec![RedisValue::Null]).is_single_element_vec());
    assert!(!RedisValue::Array(vec![]).is_single_element_vec());
    assert!(!RedisValue::Array(vec![RedisValue::Null, RedisValue::Null]).is_single_element_vec());
    assert!(!RedisValue::Null.is_single_element_vec());
}

#[test]
fn pop_or_take_gives_the_last_element() {
    assert_eq!(RedisValue::Array(vec![text("a")]).pop_or_take(), text("a"));
    assert_eq!(RedisValue::Array(vec![text("a"), text("b")]).pop_or_take(), text("b"));
    assert_eq!(text("c").pop_or_take(), text("c"));
    assert_eq!(RedisValue::Null.pop_or_take(), RedisValue::Null);
}

#[test]
fn take_leaves_null() {
    let mut v = text("a");
    assert_eq!(v.take(), text("a"));
    assert_eq!(v, RedisValue::Null);
    assert_eq!(v.take(), RedisValue::Null);
}

#[test]
fn can_hash_everything_but_maps() {
    assert!(text("a").can_hash());
    assert!(RedisValue::Boolean(true).can_hash());
    assert!(double(1.0).can_hash());
    assert!(RedisValue::Integer(1).can_hash());
    assert!(bytes(b"a").can_hash());
    assert!(RedisValue::Null.can_hash());
    assert!(RedisValue::Array(vec![]).can_hash());
    assert!(RedisValue::Queued.can_hash());
    assert!(!RedisValue::Mapping(RedisMap::new()).can_hash());
}

#[test]
fn equality_of_scalars() {
    assert_eq!(RedisValue::Boolean(true), RedisValue::Boolean(true));
    assert_ne!(RedisValue::Boolean(true), RedisValue::Boolean(false));
    assert_eq!(RedisValue::Integer(1), RedisValue::Integer(1));
    assert_ne!(RedisValue::Integer(1), RedisValue::Integer(2));
    assert_ne!(RedisValue::Integer(1), RedisValue::Boolean(true));
    assert_ne!(RedisValue::Integer(1), text("1"));
    assert_eq!(text("a"), text("a"));
    assert_ne!(text("a"), text("b"));
    assert_ne!(text("a"), bytes(b"a"));
    assert_eq!(bytes(b"a"), bytes(b"a"));
    assert_eq!(RedisValue::Null, RedisValue::Null);
    assert_eq!(RedisValue::Queued, RedisValue::Queued);
    assert_ne!(RedisValue::Null, RedisValue::Queued);
}

#[test]
fn equality_of_doubles_allows_two_units_in_the_last_place() {
    let one = 1.0f64.to_bits();
    assert!(doubles_close(one, one));
    assert!(doubles_close(one, one + 1));
    assert!(doubles_close(one, one + 2));
    assert!(doubles_close(one + 2, one));
    assert!(!doubles_close(one, one + 3));
    assert!(!doubles_close(one + 3, one));
    assert!(doubles_close(0, u64::MAX));
    assert!(doubles_close(u64::MAX - 1, 0));
    assert!(!doubles_close(u64::MAX - 2, 0));
    assert!(!doubles_close(0.0f64.to_bits(), (-0.0f64).to_bits()));
    assert_eq!(double(1.0), double(1.0));
    assert_eq!(double(1.0), double(f64::from_bits(one + 2)));
    assert_ne!(double(1.0), double(f64::from_bits(one + 3)));
    assert_ne!(double(1.0), double(2.0));
    assert_ne!(double(1.0), RedisValue::Integer(1));
}

#[test]
fn equality_of_arrays_is_element_by_element() {
    let a = RedisValue::Array(vec![text("a"), RedisValue::Integer(1)]);
    let b = RedisValue::Array(vec![text("a"), RedisValue::Integer(1)]);
    let c = RedisValue::Array(vec![RedisValue::Integer(1), text("a")]);
    let d = RedisValue::Array(vec![text("a")]);
    assert_eq!(a, b);
    assert_ne!(a, c);
    assert_ne!(a, d);
    assert_eq!(RedisValue::Array(vec![]), RedisValue::Array(vec![]));
    assert_eq!(RedisValue::Array(vec![a.clone()]), RedisValue::Array(vec![b]));
    assert_ne!(RedisValue::Array(vec![a]), RedisValue::Array(vec![c]));
}

#[test]
fn equality_of_maps_ignores_order() {
    let a = map_of(vec![("x", RedisValue::Integer(1)), ("y", text("b"))]);
    let b = map_of(vec![("y", text("b")), ("x", RedisValue::Integer(1))]);
    let c = map_of(vec![("x", RedisValue::Integer(1)), ("y", text("c"))]);
    let d = map_of(vec![("x", RedisValue::Integer(1))]);
    let e = map_of(vec![("x", RedisValue::Integer(1)), ("z", text("b"))]);
    assert_eq!(a, b);
    assert!(a.eq_map(&b));
    assert_ne!(a, c);
    assert_ne!(a, d);
    assert_ne!(d, a);
    assert_ne!(a, e);
    assert_eq!(RedisValue::Mapping(a.clone()), RedisValue::Mapping(b));
    assert_ne!(RedisValue::Mapping(a.clone()), RedisValue::Mapping(c));
    assert_ne!(RedisValue::Mapping(a), RedisValue::Array(vec![]));
    assert_eq!(RedisMap::new(), RedisMap::new());
}

#[test]
fn clone_is_deep() {
    let v = RedisValue::Array(vec![
        text("a"),
        RedisValue::Mapping(map_of(vec![("k", RedisValue::Array(vec![bytes(b"\xff"), double(1.5)]))])),
        RedisValue::Null,
        RedisValue::Queued,
        RedisValue::Boolean(true),
        RedisValue::Integer(9),
    ]);
    assert_eq!(v.clone(), v);
}

#[test]
fn map_insert_get_len_take() {
    let mut map = RedisMap::new();
    assert_eq!(map.len(), 0);
    assert_eq!(map.insert(key("a"), RedisValue::Integer(1)), None);
    assert_eq!(map.insert(key("b"), RedisValue::Integer(2)), None);
    assert_eq!(map.len(), 2);
    assert_eq!(map.insert(key("a"), RedisValue::Integer(3)), Some(RedisValue::Integer(1)));
    assert_eq!(map.len(), 2);
    assert_eq!(map.get(&key("a")), Some(&RedisValue::Integer(3)));
    assert_eq!(map.get(&key("b")), Some(&RedisValue::Integer(2)));
    assert_eq!(map.get(&key("c")), None);
    let taken = map.take();
    assert_eq!(map.len(), 0);
    assert_eq!(taken.len(), 2);
    let entries = taken.inner();
    assert_eq!(entries[0], (key("a"), RedisValue::Integer(3)));
    assert_eq!(entries[1], (key("b"), RedisValue::Integer(2)));
}

#[test]
fn map_from_pairs_keeps_the_place_of_the_first_and_the_value_of_the_last() {
    let map = RedisMap::from_pairs(vec![
        (key("a"), RedisValue::Integer(1)),
        (key("b"), RedisValue::Integer(2)),
        (key("a"), RedisValue::Integer(3)),
    ]);
    assert_eq!(map.len(), 2);
    assert_eq!(map.get(&key("a")), Some(&RedisValue::Integer(3)));
    let entries = map.inner();
    assert_eq!(entries[0].0, key("a"));
    assert_eq!(entries[1].0, key("b"));
    assert_eq!(RedisMap::from_pairs(vec![]).len(), 0);
}

#[test]
fn is_maybe_map_wants_even_length_and_scalar_keys() {
    assert!(RedisValue::Mapping(RedisMap::new()).is_maybe_map());
    assert!(RedisValue::Array(vec![text("k"), text("v")]).is_maybe_map());
    assert!(RedisValue::Array(vec![text("k"), RedisValue::Array(vec![])]).is_maybe_map());
    assert!(RedisValue::Array(vec![]).is_maybe_map());
    assert!(!RedisValue::Array(vec![text("k")]).is_maybe_map());
    assert!(!RedisValue::Array(vec![RedisValue::Array(vec![]), text("v")]).is_maybe_map());
    assert!(!RedisValue::Array(vec![text("k"), text("v"), RedisValue::Mapping(RedisMap::new()), text("v")])
        .is_maybe_map());
    assert!(!text("k").is_maybe_map());
    assert!(!RedisValue::Null.is_maybe_map());
}

#[test]
fn into_map_pairs_up_an_array() {
    let map = RedisValue::Array(vec![text("a"), RedisValue::Integer(1), RedisValue::Integer(2), text("two")])
        .into_map()
        .unwrap();
    assert_eq!(map.len(), 2);
    assert_eq!(map.get(&key("a")), Some(&RedisValue::Integer(1)));
    assert_eq!(map.get(&key("2")), Some(&text("two")));
    assert_eq!(RedisValue::Array(vec![]).into_map().unwrap().len(), 0);
    let given = map_of(vec![("x", RedisValue::Null)]);
    assert_eq!(RedisValue::Mapping(given.clone()).into_map().unwrap(), given);
}

#[test]
fn into_map_keeps_the_earlier_of_two_pairs_with_one_key() {
    let map = RedisValue::Array(vec![text("a"), RedisValue::Integer(1), text("a"), RedisValue::Integer(2)])
        .into_map()
        .unwrap();
    assert_eq!(map.len(), 1);
    assert_eq!(map.get(&key("a")), Some(&RedisValue::Integer(1)));
}

#[test]
fn into_map_refuses_what_is_no_map() {
    let odd = RedisValue::Array(vec![text("a")]).into_map().unwrap_err();
    assert_eq!(odd.kind(), RedisErrorKind::Unknown);
    assert_eq!(odd.details(), "Expected an even number of elements.");
    let odd_and_bad = RedisValue::Array(vec![RedisValue::Null, text("a"), text("b")]).into_map().unwrap_err();
    assert_eq!(odd_and_bad.kind(), RedisErrorKind::Unknown);
    let bad_key = RedisValue::Array(vec![RedisValue::Null, text("a")]).into_map().unwrap_err();
    assert_eq!(bad_key.kind(), RedisErrorKind::InvalidArgument);
    let bad_key = RedisValue::Array(vec![RedisValue::Array(vec![]), text("a"), text("k"), text("v")])
        .into_map()
        .unwrap_err();
    assert_eq!(bad_key.kind(), RedisErrorKind::InvalidArgument);
    let scalar = text("a").into_map().unwrap_err();
    assert_eq!(scalar.kind(), RedisErrorKind::Unknown);
    assert_eq!(scalar.details(), "Could not convert to map.");
    assert_eq!(RedisValue::Null.into_map().unwrap_err().kind(), RedisErrorKind::Unknown);
}

#[test]
fn into_array_spreads_maps_and_wraps_scalars() {
    assert_eq!(RedisValue::Array(vec![text("a")]).into_array(), vec![text("a")]);
    assert_eq!(text("a").into_array(), vec![text("a")]);
    assert_eq!(RedisValue::Null.into_array(), vec![RedisValue::Null]);
    let map = map_of(vec![("k1", RedisValue::Integer(1)), ("k2", RedisValue::Integer(2))]);
    assert_eq!(
        RedisValue::Mapping(map).into_array(),
        vec![bytes(b"k1"), RedisValue::Integer(1), bytes(b"k2"), RedisValue::Integer(2)]
    );
    assert_eq!(RedisValue::Mapping(RedisMap::new()).into_array(), Vec::<RedisValue>::new());
}

#[test]
fn into_multiple_values_drops_null() {
    assert_eq!(RedisValue::Null.into_multiple_values(), Vec::<RedisValue>::new());
    assert_eq!(text("a").into_multiple_values(), vec![text("a")]);
    assert_eq!(RedisValue::Array(vec![text("a"), text("b")]).into_multiple_values(), vec![text("a"), text("b")]);
    let map = map_of(vec![("k", text("v"))]);
    assert_eq!(RedisValue::Mapping(map).into_multiple_values(), vec![bytes(b"k"), text("v")]);
}

#[test]
fn double_value_keeps_bits_and_text() {
    let d = DoubleValue::new(2.5f64.to_bits(), Str::from("2.5"));
    assert_eq!(d.bits(), 2.5f64.to_bits());
    assert_eq!(d.text().to_string(), "2.5");
    let c = d.clone();
    assert_eq!(c.bits(), d.bits());
    assert_eq!(c.text(), d.text());
}
