//! From keys to hash slots.
//!
//! A cluster divides its keys over 16384 slots. A key's slot is a checksum of its routing key:
//! the hash tag, if the key has one, and else the whole key. The hash tag is what stands between
//! the first `{` and the first `}` after it, provided that is not empty.

use crate::error::{RedisError, RedisErrorKind};
use crate::text::{find_byte, first_index};
use crate::value::RedisKey;
use vstd::prelude::*;
use vstd::slice::slice_subrange;

verus! {

/// The number of hash slots in a cluster.
pub const CLUSTER_SLOTS: u16 = 16384;

/// The slot that `redis_protocol::redis_keyslot` computes for a key.
pub uninterp spec fn key_slot(key: Seq<u8>) -> u16;

/// `redis_protocol::redis_keyslot`: the slot of a key, a number below 16384 that depends on the
/// key's bytes alone.
#[verifier::external_body]
fn keyslot(key: &[u8]) -> (slot: u16)
    ensures
        slot == key_slot(key@),
        slot < CLUSTER_SLOTS,
{
    redis_protocol::redis_keyslot(key)
}

/// The hash tag of a key: the bytes between the first `{` and the first `}` after it, if both
/// are there and something stands between them.
pub open spec fn hash_tag(key: Seq<u8>) -> Option<Seq<u8>> {
    let open = first_index(key, 123, 0);
    let close = first_index(key, 125, open + 1);
    if open < key.len() && close < key.len() && close > open + 1 {
        Some(key.subrange(open + 1, close))
    } else {
        None
    }
}

/// The bytes that decide where a key lives: its hash tag, or the whole key if it has none.
pub open spec fn routing_key(key: Seq<u8>) -> Seq<u8> {
    match hash_tag(key) {
        Some(tag) => tag,
        None => key,
    }
}

/// The hash slot of a key.
pub open spec fn slot_of(key: Seq<u8>) -> u16 {
    key_slot(routing_key(key))
}

/// The part of a key that its slot is computed from.
pub fn routing_part(key: &[u8]) -> (part: &[u8])
    ensures
        part@ == routing_key(key@),
{
    let open: usize = find_byte(key, 123, 0);
    if open >= key.len() {
        return key;
    }
    let close: usize = find_byte(key, 125, open + 1);
    if close < key.len() && close > open + 1 {
        slice_subrange(key, open + 1, close)
    } else {
        key
    }
}

/// The hash slot of a key: that of its hash tag if it has one, and else that of the whole key.
pub fn hash_slot(key: &[u8]) -> (slot: u16)
    ensures
        slot == slot_of(key@),
        slot < CLUSTER_SLOTS,
{
    keyslot(routing_part(key))
}

/// Keys that share a hash tag live in the same slot.
pub proof fn lemma_shared_tag_shares_slot(k1: Seq<u8>, k2: Seq<u8>)
    requires
        hash_tag(k1) is Some,
        hash_tag(k1) == hash_tag(k2),
    ensures
        slot_of(k1) == slot_of(k2),
{
}

/// A key whose hash tag is `tag` lives where the key `tag` lives, as long as `tag` holds no
/// `{`. (A tag never holds a `}`.)
pub proof fn lemma_tag_decides_slot(key: Seq<u8>, tag: Seq<u8>)
    requires
        hash_tag(key) == Some(tag),
        forall|i: int| 0 <= i < tag.len() ==> tag[i] != 123,
    ensures
        slot_of(key) == slot_of(tag),
{
    lemma_no_brace_no_tag(tag, 0);
}

/// A key without `{` has no hash tag.
proof fn lemma_no_brace_no_tag(key: Seq<u8>, from: int)
    requires
        0 <= from,
        forall|i: int| 0 <= i < key.len() ==> key[i] != 123,
    ensures
        first_index(key, 123, from) >= key.len(),
    decreases key.len() - from,
{
    if from < key.len() {
        lemma_no_brace_no_tag(key, from + 1);
    }
}

/// The slot that all of the keys share. No keys at all share no slot, which is `None`; keys
/// from different slots are refused as an `InvalidArgument`, since a command can only go to
/// one node.
pub open spec fn common_slot(keys: Seq<Seq<u8>>) -> Option<Option<u16>> {
    if keys.len() == 0 {
        Some(None)
    } else if forall|i: int| 0 <= i < keys.len() ==> slot_of(#[trigger] keys[i]) == slot_of(keys[0]) {
        Some(Some(slot_of(keys[0])))
    } else {
        None
    }
}

/// The views of a run of keys.
pub open spec fn key_views(keys: Seq<RedisKey>) -> Seq<Seq<u8>> {
    Seq::new(keys.len(), |i: int| keys[i]@)
}

/// The one slot that a command's keys belong to.
pub fn slot_for_keys(keys: &Vec<RedisKey>) -> (r: Result<Option<u16>, RedisError>)
    ensures
        match common_slot(key_views(keys@)) {
            Some(slot) => r == Ok::<Option<u16>, RedisError>(slot),
            None => r matches Err(e) && e.kind() == RedisErrorKind::InvalidArgument,
        },
        r matches Ok(Some(slot)) ==> slot < CLUSTER_SLOTS,
{
    if keys.len() == 0 {
        return Ok(None);
    }
    let ghost views = key_views(keys@);
    let first: u16 = hash_slot(keys[0].as_bytes());
    let mut i: usize = 1;
    while i < keys.len()
        invariant
            1 <= i <= keys.len(),
            views == key_views(keys@),
            first == slot_of(views[0]),
            forall|j: int| 0 <= j < i ==> slot_of(#[trigger] views[j]) == first,
        decreases keys.len() - i,
    {
        if hash_slot(keys[i].as_bytes()) != first {
            assert(slot_of(views[i as int]) != slot_of(views[0]));
            return Err(
                RedisError::new(
                    RedisErrorKind::InvalidArgument,
                    "The keys belong to different hash slots.",
                ),
            );
        }
        i = i + 1;
    }
    Ok(Some(first))
}

} // verus!
