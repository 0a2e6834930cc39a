//! More ways to read and to make keys.

use crate::buffer::{
    bytes_from_static, bytes_from_vec, bytes_seq, str_clone, str_from_string, str_from_utf8,
    str_into_inner, str_seq, string_from_utf8, string_from_utf8_lossy, utf8_lossy,
};
use crate::error::{RedisError, RedisErrorKind};
use crate::router::{Topology, TopologyView};
use crate::routing::{hash_slot, slot_of, CLUSTER_SLOTS};
use crate::text::{decimal_bytes, i64_to_string};
use crate::topology::{owner_of, Server};
use crate::reading::string_bytes;
use crate::value::{utf8, RedisKey, RedisValue};
use bytes::Bytes;
use bytes_utils::Str;
use vstd::prelude::*;
use vstd::slice::slice_to_vec;
use vstd::std_specs::convert::{FromSpecImpl, TryFromSpecImpl};
use vstd::utf8::{encode_utf8, valid_utf8};

verus! {

/// A type that a key can be turned into.
pub trait FromRedisKey: Sized {
    /// Turns the key into a value of this type, or says why it cannot.
    fn from_key(key: RedisKey) -> Result<Self, RedisError>;
}

impl RedisKey {
    /// The key as text, if it is valid UTF-8.
    pub fn as_str(&self) -> (r: Option<&str>)
        ensures
            r is Some <==> valid_utf8(self@),
            r matches Some(s) ==> encode_utf8(s@) == self@,
    {
        str_from_utf8(self.as_bytes())
    }

    /// The key as text, read leniently: each malformed part becomes U+FFFD.
    pub fn as_str_lossy(&self) -> (s: String)
        ensures
            s@ == utf8_lossy(self@),
            valid_utf8(self@) ==> encode_utf8(s@) == self@,
    {
        string_from_utf8_lossy(self.as_bytes())
    }

    /// The key as an owned string, if it is valid UTF-8.
    pub fn into_string(self) -> (r: Option<String>)
        ensures
            string_bytes(r) == (if valid_utf8(self@) {
                Some(self@)
            } else {
                None
            }),
    {
        string_from_utf8(slice_to_vec(self.as_bytes()))
    }

    /// The hash slot of the key.
    pub fn cluster_hash(&self) -> (slot: u16)
        ensures
            slot == slot_of(self@),
            slot < CLUSTER_SLOTS,
    {
        hash_slot(self.as_bytes())
    }

    /// The server that owns the key, if the deployment is a cluster.
    pub fn cluster_owner(&self, topology: &Topology) -> (r: Option<Server>)
        ensures
            match topology@ {
                TopologyView::Clustered(ranges) => r matches Some(s) && s@ == owner_of(
                    ranges,
                    slot_of(self@),
                ),
                _ => r is None,
            },
    {
        match topology {
            Topology::Clustered(map) => {
                let slot: u16 = self.cluster_hash();
                match map.get_server(slot) {
                    Some(server) => Some(server.clone()),
                    None => None,
                }
            },
            _ => None,
        }
    }

    /// Turns the key into any type that says how it is made from a key.
    pub fn convert<K: FromRedisKey>(self) -> (r: Result<K, RedisError>)
        ensures
            call_ensures(K::from_key, (self,), r),
    {
        K::from_key(self)
    }

    /// A key with a copy of the given bytes.
    pub fn from_slice(b: &[u8]) -> (k: Self)
        ensures
            k@ == b@,
    {
        RedisKey::from_bytes(bytes_from_vec(slice_to_vec(b)))
    }
}

impl FromRedisKey for RedisKey {
    fn from_key(key: RedisKey) -> (r: Result<Self, RedisError>)
        ensures
            r matches Ok(k) && k@ == key@,
    {
        Ok(key)
    }
}

impl FromRedisKey for Bytes {
    fn from_key(key: RedisKey) -> (r: Result<Self, RedisError>)
        ensures
            r matches Ok(b) && bytes_seq(b) == key@,
    {
        Ok(key.into_bytes())
    }
}

impl From<Bytes> for RedisKey {
    fn from(b: Bytes) -> (k: Self)
        ensures
            k@ == bytes_seq(b),
    {
        RedisKey::from_bytes(b)
    }
}

impl FromSpecImpl<Bytes> for RedisKey {
    open spec fn obeys_from_spec() -> bool {
        false
    }

    open spec fn from_spec(v: Bytes) -> Self {
        arbitrary()
    }
}

impl From<Vec<u8>> for RedisKey {
    fn from(b: Vec<u8>) -> (k: Self)
        ensures
            k@ == b@,
    {
        RedisKey::from_bytes(bytes_from_vec(b))
    }
}

impl FromSpecImpl<Vec<u8>> for RedisKey {
    open spec fn obeys_from_spec() -> bool {
        false
    }

    open spec fn from_spec(v: Vec<u8>) -> Self {
        arbitrary()
    }
}

impl<'a> From<&'a [u8]> for RedisKey {
    fn from(b: &'a [u8]) -> (k: Self)
        ensures
            k@ == b@,
    {
        RedisKey::from_slice(b)
    }
}

impl<'a> FromSpecImpl<&'a [u8]> for RedisKey {
    open spec fn obeys_from_spec() -> bool {
        false
    }

    open spec fn from_spec(v: &'a [u8]) -> Self {
        arbitrary()
    }
}

impl From<String> for RedisKey {
    fn from(s: String) -> (k: Self)
        ensures
            k@ == encode_utf8(s@),
    {
        RedisKey::from_bytes(str_into_inner(str_from_string(s)))
    }
}

impl FromSpecImpl<String> for RedisKey {
    open spec fn obeys_from_spec() -> bool {
        false
    }

    open spec fn from_spec(v: String) -> Self {
        arbitrary()
    }
}

impl<'a> From<&'a str> for RedisKey {
    fn from(s: &'a str) -> (k: Self)
        ensures
            k@ == encode_utf8(s@),
    {
        RedisKey::from_slice(s.as_bytes())
    }
}

impl<'a> FromSpecImpl<&'a str> for RedisKey {
    open spec fn obeys_from_spec() -> bool {
        false
    }

    open spec fn from_spec(v: &'a str) -> Self {
        arbitrary()
    }
}

impl From<Str> for RedisKey {
    fn from(s: Str) -> (k: Self)
        ensures
            k@ == str_seq(s),
    {
        RedisKey::from_bytes(str_into_inner(s))
    }
}

impl FromSpecImpl<Str> for RedisKey {
    open spec fn obeys_from_spec() -> bool {
        false
    }

    open spec fn from_spec(v: Str) -> Self {
        arbitrary()
    }
}

impl<'a> From<&'a Str> for RedisKey {
    fn from(s: &'a Str) -> (k: Self)
        ensures
            k@ == str_seq(*s),
    {
        RedisKey::from_bytes(str_into_inner(str_clone(s)))
    }
}

impl<'a> FromSpecImpl<&'a Str> for RedisKey {
    open spec fn obeys_from_spec() -> bool {
        false
    }

    open spec fn from_spec(v: &'a Str) -> Self {
        arbitrary()
    }
}

impl<'a> From<&'a RedisKey> for RedisKey {
    fn from(k: &'a RedisKey) -> (r: Self)
        ensures
            r@ == k@,
    {
        k.clone()
    }
}

impl<'a> FromSpecImpl<&'a RedisKey> for RedisKey {
    open spec fn obeys_from_spec() -> bool {
        false
    }

    open spec fn from_spec(v: &'a RedisKey) -> Self {
        arbitrary()
    }
}

impl From<bool> for RedisKey {
    fn from(b: bool) -> (k: Self)
        ensures
            k@ == (if b {
                utf8("true")
            } else {
                utf8("false")
            }),
    {
        if b {
            RedisKey::from_bytes(bytes_from_static("true".as_bytes()))
        } else {
            RedisKey::from_bytes(bytes_from_static("false".as_bytes()))
        }
    }
}

impl FromSpecImpl<bool> for RedisKey {
    open spec fn obeys_from_spec() -> bool {
        false
    }

    open spec fn from_spec(v: bool) -> Self {
        arbitrary()
    }
}

impl From<i64> for RedisKey {
    fn from(i: i64) -> (k: Self)
        ensures
            k@ == decimal_bytes(i as int),
    {
        RedisKey::from_bytes(str_into_inner(str_from_string(i64_to_string(i))))
    }
}

impl FromSpecImpl<i64> for RedisKey {
    open spec fn obeys_from_spec() -> bool {
        false
    }

    open spec fn from_spec(v: i64) -> Self {
        arbitrary()
    }
}

impl TryFrom<RedisValue> for RedisKey {
    type Error = RedisError;

    /// The key that a scalar value makes; see [`RedisKey::from_value`].
    fn try_from(value: RedisValue) -> (r: Result<Self, RedisError>)
        ensures
            match value@.key_bytes() {
                Some(b) => r matches Ok(k) && k@ == b,
                None => r matches Err(e) && e.kind() == RedisErrorKind::InvalidArgument,
            },
    {
        RedisKey::from_value(value)
    }
}

impl TryFromSpecImpl<RedisValue> for RedisKey {
    open spec fn obeys_try_from_spec() -> bool {
        false
    }

    open spec fn try_from_spec(value: RedisValue) -> Result<Self, RedisError> {
        arbitrary()
    }
}

impl From<u8> for RedisKey {
    fn from(i: u8) -> (k: Self)
        ensures
            k@ == decimal_bytes(i as int),
    {
        RedisKey::from_bytes(str_into_inner(str_from_string(i64_to_string(i as i64))))
    }
}

impl FromSpecImpl<u8> for RedisKey {
    open spec fn obeys_from_spec() -> bool {
        false
    }

    open spec fn from_spec(v: u8) -> Self {
        arbitrary()
    }
}

impl From<u16> for RedisKey {
    fn from(i: u16) -> (k: Self)
        ensures
            k@ == decimal_bytes(i as int),
    {
        RedisKey::from_bytes(str_into_inner(str_from_string(i64_to_string(i as i64))))
    }
}

impl FromSpecImpl<u16> for RedisKey {
    open spec fn obeys_from_spec() -> bool {
        false
    }

    open spec fn from_spec(v: u16) -> Self {
        arbitrary()
    }
}

impl From<u32> for RedisKey {
    fn from(i: u32) -> (k: Self)
        ensures
            k@ == decimal_bytes(i as int),
    {
        RedisKey::from_bytes(str_into_inner(str_from_string(i64_to_string(i as i64))))
    }
}

impl FromSpecImpl<u32> for RedisKey {
    open spec fn obeys_from_spec() -> bool {
        false
    }

    open spec fn from_spec(v: u32) -> Self {
        arbitrary()
    }
}

impl From<i8> for RedisKey {
    fn from(i: i8) -> (k: Self)
        ensures
            k@ == decimal_bytes(i as int),
    {
        RedisKey::from_bytes(str_into_inner(str_from_string(i64_to_string(i as i64))))
    }
}

impl FromSpecImpl<i8> for RedisKey {
    open spec fn obeys_from_spec() -> bool {
        false
    }

    open spec fn from_spec(v: i8) -> Self {
        arbitrary()
    }
}

impl From<i16> for RedisKey {
    fn from(i: i16) -> (k: Self)
        ensures
            k@ == decimal_bytes(i as int),
    {
        RedisKey::from_bytes(str_into_inner(str_from_string(i64_to_string(i as i64))))
    }
}

impl FromSpecImpl<i16> for RedisKey {
    open spec fn obeys_from_spec() -> bool {
        false
    }

    open spec fn from_spec(v: i16) -> Self {
        arbitrary()
    }
}

impl From<i32> for RedisKey {
    fn from(i: i32) -> (k: Self)
        ensures
            k@ == decimal_bytes(i as int),
    {
        RedisKey::from_bytes(str_into_inner(str_from_string(i64_to_string(i as i64))))
    }
}

impl FromSpecImpl<i32> for RedisKey {
    open spec fn obeys_from_spec() -> bool {
        false
    }

    open spec fn from_spec(v: i32) -> Self {
        arbitrary()
    }
}

} // verus!
