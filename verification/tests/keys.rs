use bytes::Bytes;
use bytes_utils::Str;
use fred::error::RedisErrorKind;
use fred::router::Topology;
use fred::topology::{Server, SlotMap, SlotRange};
use fred::value::{DoubleValue, RedisKey, RedisMap, RedisValue};

fn range(start: u16, end: u16, host: &str, port: u16) -> SlotRange {
    SlotRange { start, end, primary: Server::new(host, port), replicas: Vec::new() }
}

#[test]
fn key_from_static_str_holds_its_bytes() {
    let key = RedisKey::from_static_str("foo");
    assert_eq!(key.as_bytes(), b"foo");
    assert_eq!(RedisKey::from_static(b"\x00\xff").as_bytes(), &[0u8, 255u8]);
}

#[test]
fn key_reads_as_text_only_if_valid_utf8() {
    let text = RedisKey::from_static(b"caf\xc3\xa9");
    assert_eq!(text.as_str(), Some("café"));
    assert_eq!(text.clone().into_string(), Some("café".to_string()));
    assert_eq!(text.as_bytes_str().map(|s| s.to_string()), Some("café".to_string()));
    let raw = RedisKey::from_static(b"\xff\xfe");
    assert_eq!(raw.as_str(), None);
    assert_eq!(raw.clone().into_string(), None);
    assert!(raw.as_bytes_str().is_none());
    assert_eq!(raw.as_str_lossy(), "\u{fffd}\u{fffd}");
    assert_eq!(text.as_str_lossy(), "café");
}

#[test]
fn key_take_empties_the_key() {
    let mut key = RedisKey::from_static_str("abc");
    let taken = key.take();
    assert_eq!(&taken[..], b"abc");
    assert_eq!(key.as_bytes(), b"");
    assert_eq!(key.inner().len(), 0);
}

#[test]
fn key_into_bytes_and_inner_give_the_buffer() {
    let key = RedisKey::from(Bytes::from_static(b"xyz"));
    assert_eq!(&key.inner()[..], b"xyz");
    assert_eq!(&key.into_bytes()[..], b"xyz");
}

#[test]
fn key_equality_is_by_bytes() {
    let a = RedisKey::from_static_str("k");
    let b = RedisKey::from("k".to_string());
    let c = RedisKey::from_static_str("K");
    assert_eq!(a, b);
    assert_ne!(a, c);
    assert_eq!(a.clone(), a);
}

#[test]
fn key_from_plain_data() {
    assert_eq!(RedisKey::from("a").as_bytes(), b"a");
    assert_eq!(RedisKey::from("a".to_string()).as_bytes(), b"a");
    assert_eq!(RedisKey::from(b"a".to_vec()).as_bytes(), b"a");
    assert_eq!(RedisKey::from(&b"ab"[..]).as_bytes(), b"ab");
    assert_eq!(RedisKey::from_slice(b"ab").as_bytes(), b"ab");
    assert_eq!(RedisKey::from(Str::from("s")).as_bytes(), b"s");
    assert_eq!(RedisKey::from(&Str::from("s")).as_bytes(), b"s");
    assert_eq!(RedisKey::from(true).as_bytes(), b"true");
    assert_eq!(RedisKey::from(false).as_bytes(), b"false");
    assert_eq!(RedisKey::from(-42i64).as_bytes(), b"-42");
    assert_eq!(RedisKey::from(0i64).as_bytes(), b"0");
    assert_eq!(RedisKey::from(i64::MIN).as_bytes(), b"-9223372036854775808");
    assert_eq!(RedisKey::from(255u8).as_bytes(), b"255");
    assert_eq!(RedisKey::from(65535u16).as_bytes(), b"65535");
    assert_eq!(RedisKey::from(u32::MAX).as_bytes(), b"4294967295");
    assert_eq!(RedisKey::from(-128i8).as_bytes(), b"-128");
    assert_eq!(RedisKey::from(-32768i16).as_bytes(), b"-32768");
    assert_eq!(RedisKey::from(i32::MIN).as_bytes(), b"-2147483648");
    let k = RedisKey::from_static_str("r");
    assert_eq!(RedisKey::from(&k), k);
}

#[test]
fn key_from_value_takes_scalars() {
    let s = RedisKey::from_value(RedisValue::from_static_str("foo")).unwrap();
    assert_eq!(s.as_bytes(), b"foo");
    let i = RedisKey::from_value(RedisValue::Integer(-7)).unwrap();
    assert_eq!(i.as_bytes(), b"-7");
    let d = RedisKey::from_value(RedisValue::Double(DoubleValue::new(
        1.5f64.to_bits(),
        Str::from(1.5f64.to_string()),
    )))
    .unwrap();
    assert_eq!(d.as_bytes(), b"1.5");
    let b = RedisKey::from_value(RedisValue::from_static(b"\xff")).unwrap();
    assert_eq!(b.as_bytes(), b"\xff");
    assert_eq!(RedisKey::from_value(RedisValue::Boolean(true)).unwrap().as_bytes(), b"true");
    assert_eq!(RedisKey::from_value(RedisValue::Boolean(false)).unwrap().as_bytes(), b"false");
    assert_eq!(RedisKey::from_value(RedisValue::Queued).unwrap().as_bytes(), b"QUEUED");
    assert_eq!(RedisKey::try_from(RedisValue::Integer(3)).unwrap().as_bytes(), b"3");
}

#[test]
fn key_from_value_refuses_null_and_aggregates() {
    let null = RedisKey::from_value(RedisValue::Null).unwrap_err();
    assert_eq!(null.kind(), RedisErrorKind::InvalidArgument);
    assert_eq!(null.details(), "Cannot convert to key.");
    let array = RedisKey::from_value(RedisValue::Array(vec![RedisValue::Integer(1)])).unwrap_err();
    assert_eq!(array.kind(), RedisErrorKind::InvalidArgument);
    let map = RedisKey::from_value(RedisValue::Mapping(RedisMap::new())).unwrap_err();
    assert_eq!(map.kind(), RedisErrorKind::InvalidArgument);
}

#[test]
fn key_cluster_hash_is_the_slot_of_the_key() {
    assert_eq!(RedisKey::from_static_str("foo").cluster_hash(), 12182);
    assert_eq!(RedisKey::from_static_str("bar").cluster_hash(), 5061);
    let key = RedisKey::from_static_str("8xjx7vWrfPq54mKfFD3Y1CcjjofpnAcQ");
    assert_eq!(key.cluster_hash(), 5458);
    for text in ["", "a", "{", "}", "{}", "{}x", "a{b}c", "{a}{b}", "x{y", "x}y{z}", "{{a}}", "a{}{b}"] {
        let key = RedisKey::from_slice(text.as_bytes());
        assert_eq!(key.cluster_hash(), redis_protocol::redis_keyslot(text.as_bytes()), "{}", text);
    }
}

#[test]
fn key_cluster_owner_needs_a_cluster() {
    let key = RedisKey::from_static_str("foo");
    let map = SlotMap::from_ranges(vec![range(0, 8191, "a", 1), range(8192, 16383, "b", 2)]).unwrap();
    let clustered = Topology::Clustered(map);
    assert_eq!(key.cluster_owner(&clustered), Some(Server::new("b", 2)));
    assert_eq!(RedisKey::from_static_str("bar").cluster_owner(&clustered), Some(Server::new("a", 1)));
    assert_eq!(key.cluster_owner(&Topology::Centralized(Server::new("a", 1))), None);
    assert_eq!(key.cluster_owner(&Topology::Sentinel(None)), None);
}

#[test]
fn key_convert_goes_through_the_trait() {
    let key = RedisKey::from_static_str("foo");
    let same: RedisKey = key.clone().convert().unwrap();
    assert_eq!(same, key);
    let bytes: Bytes = key.convert().unwrap();
    assert_eq!(&bytes[..], b"foo");
}
