use fred::error::RedisErrorKind;
use fred::routing::{hash_slot, routing_part, slot_for_keys, CLUSTER_SLOTS};
use fred::value::RedisKey;

#[test]
fn routing_part_is_the_hash_tag_or_the_key() {
    assert_eq!(routing_part(b"foo"), b"foo");
    assert_eq!(routing_part(b"{user1000}.following"), b"user1000");
    assert_eq!(routing_part(b"{user1000}.followers"), b"user1000");
    assert_eq!(routing_part(b"foo{}{bar}"), b"foo{}{bar}");
    assert_eq!(routing_part(b"foo{{bar}}zap"), b"{bar");
    assert_eq!(routing_part(b"foo{bar}{zap}"), b"bar");
    assert_eq!(routing_part(b"{}"), b"{}");
    assert_eq!(routing_part(b"{"), b"{");
    assert_eq!(routing_part(b"}{"), b"}{");
    assert_eq!(routing_part(b"}{a}"), b"a");
    assert_eq!(routing_part(b"a{b"), b"a{b");
    assert_eq!(routing_part(b""), b"");
    assert_eq!(routing_part(b"foo{1}"), b"1");
}

#[test]
fn hash_slot_agrees_with_the_protocol_crate() {
    for key in [
        "", "foo", "bar", "foo{1}", "bar{1}", "baz{1}", "{user1000}.following", "{user1000}.followers",
        "foo{}{bar}", "foo{{bar}}zap", "foo{bar}{zap}", "{}", "{", "}", "a{b", "8xjx7vWrfPq54mKfFD3Y1CcjjofpnAcQ",
    ] {
        assert_eq!(hash_slot(key.as_bytes()), redis_protocol::redis_keyslot(key.as_bytes()), "{:?}", key);
        assert!(hash_slot(key.as_bytes()) < CLUSTER_SLOTS);
    }
    assert_eq!(hash_slot(b"foo"), 12182);
    assert_eq!(hash_slot(b"bar"), 5061);
    assert_eq!(hash_slot(b"123456789"), 0x31c3);
    assert_eq!(hash_slot(b"8xjx7vWrfPq54mKfFD3Y1CcjjofpnAcQ"), 5458);
}

#[test]
fn keys_that_share_a_hash_tag_share_a_slot() {
    let tagged = ["{tag}a", "b{tag}", "x{tag}y{other}", "{tag}", "{tag}{tag}", "{tag}}"];
    for k in tagged {
        assert_eq!(hash_slot(k.as_bytes()), hash_slot(b"tag"), "{:?}", k);
    }
    assert_eq!(hash_slot(b"foo{1}"), hash_slot(b"bar{1}"));
    assert_ne!(hash_slot(b"foo"), hash_slot(b"bar"));
}

#[test]
fn slot_for_keys_wants_one_slot() {
    let none: Vec<RedisKey> = Vec::new();
    assert_eq!(slot_for_keys(&none).unwrap(), None);
    let one = vec![RedisKey::from("foo")];
    assert_eq!(slot_for_keys(&one).unwrap(), Some(12182));
    let same = vec![RedisKey::from("foo{1}"), RedisKey::from("bar{1}"), RedisKey::from("{1}")];
    assert_eq!(slot_for_keys(&same).unwrap(), Some(hash_slot(b"1")));
    let different = vec![RedisKey::from("foo"), RedisKey::from("bar")];
    let error = slot_for_keys(&different).unwrap_err();
    assert_eq!(error.kind(), RedisErrorKind::InvalidArgument);
    let late = vec![RedisKey::from("{1}a"), RedisKey::from("{1}b"), RedisKey::from("{2}c")];
    assert_eq!(slot_for_keys(&late).unwrap_err().kind(), RedisErrorKind::InvalidArgument);
}
