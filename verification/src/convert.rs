//! Ways to make values out of plain data.

use crate::buffer::{bytes_from_vec, bytes_seq, str_from_string, str_seq};
use crate::error::{RedisError, RedisErrorKind};
use crate::value::{views_of, RedisKey, RedisMap, RedisValue, ValueView};
use bytes::Bytes;
use bytes_utils::Str;
use vstd::prelude::*;
use vstd::slice::slice_to_vec;
use vstd::std_specs::convert::{FromSpecImpl, TryFromSpecImpl};
use vstd::utf8::encode_utf8;

verus! {

impl From<u8> for RedisValue {
    fn from(d: u8) -> (v: Self) {
        RedisValue::Integer(d as i64)
    }
}

impl FromSpecImpl<u8> for RedisValue {
    open spec fn obeys_from_spec() -> bool {
        true
    }

    open spec fn from_spec(d: u8) -> Self {
        RedisValue::Integer(d as i64)
    }
}

impl From<u16> for RedisValue {
    fn from(d: u16) -> (v: Self) {
        RedisValue::Integer(d as i64)
    }
}

impl FromSpecImpl<u16> for RedisValue {
    open spec fn obeys_from_spec() -> bool {
        true
    }

    open spec fn from_spec(d: u16) -> Self {
        RedisValue::Integer(d as i64)
    }
}

impl From<u32> for RedisValue {
    fn from(d: u32) -> (v: Self) {
        RedisValue::Integer(d as i64)
    }
}

impl FromSpecImpl<u32> for RedisValue {
    open spec fn obeys_from_spec() -> bool {
        true
    }

    open spec fn from_spec(d: u32) -> Self {
        RedisValue::Integer(d as i64)
    }
}

impl From<i8> for RedisValue {
    fn from(d: i8) -> (v: Self) {
        RedisValue::Integer(d as i64)
    }
}

impl FromSpecImpl<i8> for RedisValue {
    open spec fn obeys_from_spec() -> bool {
        true
    }

    open spec fn from_spec(d: i8) -> Self {
        RedisValue::Integer(d as i64)
    }
}

impl From<i16> for RedisValue {
    fn from(d: i16) -> (v: Self) {
        RedisValue::Integer(d as i64)
    }
}

impl FromSpecImpl<i16> for RedisValue {
    open spec fn obeys_from_spec() -> bool {
        true
    }

    open spec fn from_spec(d: i16) -> Self {
        RedisValue::Integer(d as i64)
    }
}

impl From<i32> for RedisValue {
    fn from(d: i32) -> (v: Self) {
        RedisValue::Integer(d as i64)
    }
}

impl FromSpecImpl<i32> for RedisValue {
    open spec fn obeys_from_spec() -> bool {
        true
    }

    open spec fn from_spec(d: i32) -> Self {
        RedisValue::Integer(d as i64)
    }
}

impl From<i64> for RedisValue {
    fn from(d: i64) -> (v: Self) {
        RedisValue::Integer(d)
    }
}

impl FromSpecImpl<i64> for RedisValue {
    open spec fn obeys_from_spec() -> bool {
        true
    }

    open spec fn from_spec(d: i64) -> Self {
        RedisValue::Integer(d)
    }
}

impl From<bool> for RedisValue {
    fn from(d: bool) -> (v: Self) {
        RedisValue::Boolean(d)
    }
}

impl FromSpecImpl<bool> for RedisValue {
    open spec fn obeys_from_spec() -> bool {
        true
    }

    open spec fn from_spec(d: bool) -> Self {
        RedisValue::Boolean(d)
    }
}

impl From<()> for RedisValue {
    fn from(d: ()) -> (v: Self) {
        RedisValue::Null
    }
}

impl FromSpecImpl<()> for RedisValue {
    open spec fn obeys_from_spec() -> bool {
        true
    }

    open spec fn from_spec(d: ()) -> Self {
        RedisValue::Null
    }
}

/// The integer that an unsigned number makes, if it is below the largest `i64`.
pub open spec fn integer_below_max(d: int) -> Option<i64> {
    if d < i64::MAX {
        Some(d as i64)
    } else {
        None
    }
}

impl TryFrom<u64> for RedisValue {
    type Error = RedisError;

    /// The integer `d`, which has to be below the largest `i64`; a larger number is refused
    /// as `Unknown`.
    fn try_from(d: u64) -> (r: Result<Self, RedisError>)
        ensures
            match integer_below_max(d as int) {
                Some(i) => r matches Ok(v) && v == RedisValue::Integer(i),
                None => r matches Err(e) && e.kind() == RedisErrorKind::Unknown,
            },
    {
        if d >= 0x7fff_ffff_ffff_ffff {
            return Err(RedisError::new(RedisErrorKind::Unknown, "Unsigned integer too large."));
        }
        Ok(RedisValue::Integer(d as i64))
    }
}

impl TryFromSpecImpl<u64> for RedisValue {
    open spec fn obeys_try_from_spec() -> bool {
        false
    }

    open spec fn try_from_spec(d: u64) -> Result<Self, RedisError> {
        arbitrary()
    }
}

impl TryFrom<usize> for RedisValue {
    type Error = RedisError;

    /// The integer `d`, which has to be below the largest `i64`; a larger number is refused
    /// as `Unknown`.
    fn try_from(d: usize) -> (r: Result<Self, RedisError>)
        ensures
            match integer_below_max(d as int) {
                Some(i) => r matches Ok(v) && v == RedisValue::Integer(i),
                None => r matches Err(e) && e.kind() == RedisErrorKind::Unknown,
            },
    {
        if d as u64 >= 0x7fff_ffff_ffff_ffff {
            return Err(RedisError::new(RedisErrorKind::Unknown, "Unsigned integer too large."));
        }
        Ok(RedisValue::Integer(d as i64))
    }
}

impl TryFromSpecImpl<usize> for RedisValue {
    open spec fn obeys_try_from_spec() -> bool {
        false
    }

    open spec fn try_from_spec(d: usize) -> Result<Self, RedisError> {
        arbitrary()
    }
}

impl TryFrom<u128> for RedisValue {
    type Error = RedisError;

    /// The integer `d`, which has to be below the largest `i64`; a larger number is refused
    /// as `Unknown`.
    fn try_from(d: u128) -> (r: Result<Self, RedisError>)
        ensures
            match integer_below_max(d as int) {
                Some(i) => r matches Ok(v) && v == RedisValue::Integer(i),
                None => r matches Err(e) && e.kind() == RedisErrorKind::Unknown,
            },
    {
        if d >= 0x7fff_ffff_ffff_ffff {
            return Err(RedisError::new(RedisErrorKind::Unknown, "Unsigned integer too large."));
        }
        Ok(RedisValue::Integer(d as i64))
    }
}

impl TryFromSpecImpl<u128> for RedisValue {
    open spec fn obeys_try_from_spec() -> bool {
        false
    }

    open spec fn try_from_spec(d: u128) -> Result<Self, RedisError> {
        arbitrary()
    }
}

impl TryFrom<i128> for RedisValue {
    type Error = RedisError;

    /// The integer `d`, which has to be below the largest `i64`; a larger number is refused
    /// as `Unknown`. A number below the smallest `i64` is cut down to its low 64 bits.
    fn try_from(d: i128) -> (r: Result<Self, RedisError>)
        ensures
            if d < i64::MAX {
                r matches Ok(v) && v == RedisValue::Integer(d as i64)
            } else {
                r matches Err(e) && e.kind() == RedisErrorKind::Unknown
            },
    {
        if d >= 0x7fff_ffff_ffff_ffff {
            return Err(RedisError::new(RedisErrorKind::Unknown, "Signed integer too large."));
        }
        Ok(RedisValue::Integer(#[verifier::truncate] (d as i64)))
    }
}

impl TryFromSpecImpl<i128> for RedisValue {
    open spec fn obeys_try_from_spec() -> bool {
        false
    }

    open spec fn try_from_spec(d: i128) -> Result<Self, RedisError> {
        arbitrary()
    }
}

impl From<Str> for RedisValue {
    fn from(s: Str) -> (v: Self)
        ensures
            v@ == ValueView::String(str_seq(s)),
    {
        RedisValue::String(s)
    }
}

impl FromSpecImpl<Str> for RedisValue {
    open spec fn obeys_from_spec() -> bool {
        false
    }

    open spec fn from_spec(s: Str) -> Self {
        arbitrary()
    }
}

impl From<Bytes> for RedisValue {
    fn from(b: Bytes) -> (v: Self)
        ensures
            v@ == ValueView::Bytes(bytes_seq(b)),
    {
        RedisValue::Bytes(b)
    }
}

impl FromSpecImpl<Bytes> for RedisValue {
    open spec fn obeys_from_spec() -> bool {
        false
    }

    open spec fn from_spec(b: Bytes) -> Self {
        arbitrary()
    }
}

impl From<Vec<u8>> for RedisValue {
    fn from(b: Vec<u8>) -> (v: Self)
        ensures
            v@ == ValueView::Bytes(b@),
    {
        RedisValue::Bytes(bytes_from_vec(b))
    }
}

impl FromSpecImpl<Vec<u8>> for RedisValue {
    open spec fn obeys_from_spec() -> bool {
        false
    }

    open spec fn from_spec(b: Vec<u8>) -> Self {
        arbitrary()
    }
}

impl From<String> for RedisValue {
    fn from(d: String) -> (v: Self)
        ensures
            v@ == ValueView::String(encode_utf8(d@)),
    {
        RedisValue::String(str_from_string(d))
    }
}

impl FromSpecImpl<String> for RedisValue {
    open spec fn obeys_from_spec() -> bool {
        false
    }

    open spec fn from_spec(d: String) -> Self {
        arbitrary()
    }
}

impl<'a> From<&'a String> for RedisValue {
    fn from(d: &'a String) -> (v: Self)
        ensures
            v@ == ValueView::String(encode_utf8(d@)),
    {
        RedisValue::String(str_from_string(d.clone()))
    }
}

impl<'a> FromSpecImpl<&'a String> for RedisValue {
    open spec fn obeys_from_spec() -> bool {
        false
    }

    open spec fn from_spec(d: &'a String) -> Self {
        arbitrary()
    }
}

impl<'a> From<&'a str> for RedisValue {
    fn from(d: &'a str) -> (v: Self)
        ensures
            v@ == ValueView::String(encode_utf8(d@)),
    {
        RedisValue::String(str_from_string(d.to_owned()))
    }
}

impl<'a> FromSpecImpl<&'a str> for RedisValue {
    open spec fn obeys_from_spec() -> bool {
        false
    }

    open spec fn from_spec(d: &'a str) -> Self {
        arbitrary()
    }
}

impl<'a> From<&'a [u8]> for RedisValue {
    fn from(b: &'a [u8]) -> (v: Self)
        ensures
            v@ == ValueView::Bytes(b@),
    {
        RedisValue::Bytes(bytes_from_vec(slice_to_vec(b)))
    }
}

impl<'a> FromSpecImpl<&'a [u8]> for RedisValue {
    open spec fn obeys_from_spec() -> bool {
        false
    }

    open spec fn from_spec(b: &'a [u8]) -> Self {
        arbitrary()
    }
}

impl From<RedisKey> for RedisValue {
    fn from(d: RedisKey) -> (v: Self)
        ensures
            v@ == ValueView::Bytes(d@),
    {
        RedisValue::Bytes(d.into_bytes())
    }
}

impl FromSpecImpl<RedisKey> for RedisValue {
    open spec fn obeys_from_spec() -> bool {
        false
    }

    open spec fn from_spec(d: RedisKey) -> Self {
        arbitrary()
    }
}

impl From<RedisMap> for RedisValue {
    fn from(m: RedisMap) -> (v: Self)
        ensures
            v@ == ValueView::Mapping(m@),
    {
        RedisValue::Mapping(m)
    }
}

impl FromSpecImpl<RedisMap> for RedisValue {
    open spec fn obeys_from_spec() -> bool {
        false
    }

    open spec fn from_spec(m: RedisMap) -> Self {
        arbitrary()
    }
}

impl From<Vec<RedisValue>> for RedisValue {
    fn from(values: Vec<RedisValue>) -> (v: Self)
        ensures
            v@ == ValueView::Array(views_of(values@)),
    {
        RedisValue::Array(values)
    }
}

impl FromSpecImpl<Vec<RedisValue>> for RedisValue {
    open spec fn obeys_from_spec() -> bool {
        true
    }

    open spec fn from_spec(values: Vec<RedisValue>) -> Self {
        RedisValue::Array(values)
    }
}

impl From<Option<RedisValue>> for RedisValue {
    fn from(d: Option<RedisValue>) -> (v: Self)
        ensures
            v == (match d {
                Some(inner) => inner,
                None => RedisValue::Null,
            }),
    {
        match d {
            Some(inner) => inner,
            None => RedisValue::Null,
        }
    }
}

impl FromSpecImpl<Option<RedisValue>> for RedisValue {
    open spec fn obeys_from_spec() -> bool {
        true
    }

    open spec fn from_spec(d: Option<RedisValue>) -> Self {
        match d {
            Some(inner) => inner,
            None => RedisValue::Null,
        }
    }
}

} // verus!
