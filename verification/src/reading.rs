//! Values read as booleans, numbers, text and bytes.

use crate::buffer::{
    bytes_as_slice, bytes_clone, bytes_from_static, bytes_seq, str_as_str, str_clone,
    str_from_inner, str_from_static, str_from_string, str_inner, str_into_inner, str_seq,
    string_from_utf8, string_from_utf8_lossy, utf8_lossy,
};
use crate::text::{decimal_bytes, i64_to_string, parse_i64, parse_signed, parse_u64, parse_unsigned};
use crate::value::{bytes_eq, lemma_views_of, utf8, RedisValue, ValueView, QUEUED};
use bytes::Bytes;
use bytes_utils::Str;
use vstd::prelude::*;
use vstd::slice::slice_to_vec;
use vstd::utf8::{encode_utf8, valid_utf8};

verus! {

/// The boolean that a piece of text spells, if any: `true`, `t` and `1` in either case of
/// letters for true, `false`, `f` and `0` for false.
pub open spec fn bool_text(s: Seq<u8>) -> Option<bool> {
    if s == utf8("true") || s == utf8("TRUE") || s == utf8("t") || s == utf8("T") || s == utf8(
        "1",
    ) {
        Some(true)
    } else if s == utf8("false") || s == utf8("FALSE") || s == utf8("f") || s == utf8("F") || s
        == utf8("0") {
        Some(false)
    } else {
        None
    }
}

impl ValueView {
    /// Whether the value is a boolean or spells one.
    pub open spec fn is_boolean(self) -> bool {
        match self {
            ValueView::Boolean(_) => true,
            ValueView::Integer(i) => i == 0 || i == 1,
            ValueView::String(s) => bool_text(s) is Some,
            _ => false,
        }
    }

    /// The value read as a boolean: a boolean itself, the integers 0 and 1, text that spells a
    /// boolean, or an array whose only element reads as one.
    pub open spec fn as_bool(self) -> Option<bool>
        decreases self,
    {
        match self {
            ValueView::Boolean(b) => Some(b),
            ValueView::Integer(i) => if i == 0 {
                Some(false)
            } else if i == 1 {
                Some(true)
            } else {
                None
            },
            ValueView::String(s) => bool_text(s),
            ValueView::Array(items) => if items.len() == 1 {
                items[0].as_bool()
            } else {
                None
            },
            _ => None,
        }
    }

    /// The value read as a signed integer: an integer itself, text that is a decimal in range,
    /// or an array whose only element reads as one.
    pub open spec fn as_i64(self) -> Option<i64>
        decreases self,
    {
        match self {
            ValueView::Integer(i) => Some(i),
            ValueView::String(s) => match parse_signed(s) {
                Some(n) => Some(n as i64),
                None => None,
            },
            ValueView::Array(items) => if items.len() == 1 {
                items[0].as_i64()
            } else {
                None
            },
            _ => None,
        }
    }

    /// The value read as an unsigned integer of at most `max`: such an integer itself, text
    /// that is an unsigned decimal in range, or an array whose only element reads as one.
    pub open spec fn as_unsigned(self, max: nat) -> Option<nat>
        decreases self,
    {
        match self {
            ValueView::Integer(i) => if 0 <= i <= max {
                Some(i as nat)
            } else {
                None
            },
            ValueView::String(s) => parse_unsigned(s, max),
            ValueView::Array(items) => if items.len() == 1 {
                items[0].as_unsigned(max)
            } else {
                None
            },
            _ => None,
        }
    }
}

/// The number that a successful unsigned reading holds.
pub open spec fn nat_of_u64(r: Option<u64>) -> Option<nat> {
    match r {
        Some(n) => Some(n as nat),
        None => None,
    }
}

/// The number that a successful unsigned reading holds.
pub open spec fn nat_of_usize(r: Option<usize>) -> Option<nat> {
    match r {
        Some(n) => Some(n as nat),
        None => None,
    }
}

impl RedisValue {
    /// Whether the value is a boolean or can be read as one.
    pub fn is_boolean(&self) -> (r: bool)
        ensures
            r == self@.is_boolean(),
    {
        match self {
            RedisValue::Boolean(_) => true,
            RedisValue::Integer(i) => *i == 0 || *i == 1,
            RedisValue::String(s) => read_bool(bytes_as_slice(str_inner(s))).is_some(),
            _ => false,
        }
    }

    /// Reads the value as a boolean.
    pub fn as_bool(&self) -> (r: Option<bool>)
        ensures
            r == self@.as_bool(),
        decreases self,
    {
        match self {
            RedisValue::Boolean(b) => Some(*b),
            RedisValue::Integer(i) => if *i == 0 {
                Some(false)
            } else if *i == 1 {
                Some(true)
            } else {
                None
            },
            RedisValue::String(s) => read_bool(bytes_as_slice(str_inner(s))),
            RedisValue::Array(inner) => {
                proof {
                    lemma_views_of(inner@);
                }
                if inner.len() == 1 {
                    inner[0].as_bool()
                } else {
                    None
                }
            },
            _ => None,
        }
    }

    /// Reads the value as an `i64`.
    pub fn as_i64(&self) -> (r: Option<i64>)
        ensures
            r == self@.as_i64(),
        decreases self,
    {
        match self {
            RedisValue::Integer(i) => Some(*i),
            RedisValue::String(s) => parse_i64(bytes_as_slice(str_inner(s))),
            RedisValue::Array(inner) => {
                proof {
                    lemma_views_of(inner@);
                }
                if inner.len() == 1 {
                    inner[0].as_i64()
                } else {
                    None
                }
            },
            _ => None,
        }
    }

    /// Reads the value as a `u64`.
    pub fn as_u64(&self) -> (r: Option<u64>)
        ensures
            nat_of_u64(r) == self@.as_unsigned(u64::MAX as nat),
        decreases self,
    {
        match self {
            RedisValue::Integer(i) => if *i >= 0 {
                Some(*i as u64)
            } else {
                None
            },
            RedisValue::String(s) => parse_u64(bytes_as_slice(str_inner(s))),
            RedisValue::Array(inner) => {
                proof {
                    lemma_views_of(inner@);
                }
                if inner.len() == 1 {
                    inner[0].as_u64()
                } else {
                    None
                }
            },
            _ => None,
        }
    }

    /// Reads the value as a `usize`.
    pub fn as_usize(&self) -> (r: Option<usize>)
        ensures
            nat_of_usize(r) == self@.as_unsigned(usize::MAX as nat),
        decreases self,
    {
        match self {
            RedisValue::Integer(i) => if *i >= 0 && *i as u64 <= usize::MAX as u64 {
                Some(*i as usize)
            } else {
                None
            },
            RedisValue::String(s) => match parse_u64(bytes_as_slice(str_inner(s))) {
                Some(n) => if n <= usize::MAX as u64 {
                    Some(n as usize)
                } else {
                    None
                },
                None => None,
            },
            RedisValue::Array(inner) => {
                proof {
                    lemma_views_of(inner@);
                }
                if inner.len() == 1 {
                    inner[0].as_usize()
                } else {
                    None
                }
            },
            _ => None,
        }
    }

    /// Turns text that is a decimal into an integer; anything else but an integer comes back
    /// unchanged as the error.
    pub fn into_integer(self) -> (r: Result<RedisValue, RedisValue>)
        ensures
            match self@.as_i64() {
                Some(i) if !(self@ is Array) => r matches Ok(v) && v@ == ValueView::Integer(i),
                _ => r matches Err(v) && v@ == self@,
            },
    {
        match self {
            RedisValue::String(s) => match parse_i64(bytes_as_slice(str_inner(&s))) {
                Some(i) => Ok(RedisValue::Integer(i)),
                None => Err(RedisValue::String(s)),
            },
            RedisValue::Integer(i) => Ok(RedisValue::Integer(i)),
            _ => Err(self),
        }
    }
}

/// Reads text as a boolean.
fn read_bool(s: &[u8]) -> (r: Option<bool>)
    ensures
        r == bool_text(s@),
{
    if bytes_eq(s, "true".as_bytes()) || bytes_eq(s, "TRUE".as_bytes()) || bytes_eq(
        s,
        "t".as_bytes(),
    ) || bytes_eq(s, "T".as_bytes()) || bytes_eq(s, "1".as_bytes()) {
        Some(true)
    } else if bytes_eq(s, "false".as_bytes()) || bytes_eq(s, "FALSE".as_bytes()) || bytes_eq(
        s,
        "f".as_bytes(),
    ) || bytes_eq(s, "F".as_bytes()) || bytes_eq(s, "0".as_bytes()) {
        Some(false)
    } else {
        None
    }
}

impl ValueView {
    /// The text of a scalar: booleans as `true` or `false`, numbers in decimal, text as it is,
    /// bytes if they are valid UTF-8, and the queued acknowledgement as `QUEUED`.
    pub open spec fn scalar_text(self) -> Option<Seq<u8>> {
        match self {
            ValueView::Boolean(b) => Some(
                if b {
                    utf8("true")
                } else {
                    utf8("false")
                },
            ),
            ValueView::Double(d) => Some(d.text),
            ValueView::String(s) => Some(s),
            ValueView::Bytes(b) => if valid_utf8(b) {
                Some(b)
            } else {
                None
            },
            ValueView::Integer(i) => Some(decimal_bytes(i as int)),
            ValueView::Queued => Some(utf8(QUEUED)),
            _ => None,
        }
    }

    /// The text of a scalar, or of the only element of an array.
    pub open spec fn text(self) -> Option<Seq<u8>>
        decreases self,
    {
        match self {
            ValueView::Array(items) => if items.len() == 1 {
                items[0].text()
            } else {
                None
            },
            _ => self.scalar_text(),
        }
    }

    /// The bytes that can be borrowed from the value: those of text, of raw bytes and of the
    /// queued acknowledgement.
    pub open spec fn borrowed_bytes(self) -> Option<Seq<u8>> {
        match self {
            ValueView::String(s) => Some(s),
            ValueView::Bytes(b) => Some(b),
            ValueView::Queued => Some(utf8(QUEUED)),
            _ => None,
        }
    }

    /// The value as bytes: text, raw bytes, an integer in decimal, the queued acknowledgement,
    /// or the only element of an array.
    pub open spec fn owned_bytes(self) -> Option<Seq<u8>>
        decreases self,
    {
        match self {
            ValueView::String(s) => Some(s),
            ValueView::Bytes(b) => Some(b),
            ValueView::Queued => Some(utf8(QUEUED)),
            ValueView::Integer(i) => Some(decimal_bytes(i as int)),
            ValueView::Array(items) => if items.len() == 1 {
                items[0].owned_bytes()
            } else {
                None
            },
            _ => None,
        }
    }
}

/// The UTF-8 bytes of an optional string.
pub open spec fn string_bytes(r: Option<String>) -> Option<Seq<u8>> {
    match r {
        Some(s) => Some(encode_utf8(s@)),
        None => None,
    }
}

/// The bytes of an optional shared string.
pub open spec fn str_bytes(r: Option<Str>) -> Option<Seq<u8>> {
    match r {
        Some(s) => Some(str_seq(s)),
        None => None,
    }
}

/// The bytes of an optional vector.
pub open spec fn vec_bytes(r: Option<Vec<u8>>) -> Option<Seq<u8>> {
    match r {
        Some(v) => Some(v@),
        None => None,
    }
}

/// The bytes of an optional buffer.
pub open spec fn buffer_bytes(r: Option<Bytes>) -> Option<Seq<u8>> {
    match r {
        Some(b) => Some(bytes_seq(b)),
        None => None,
    }
}

/// The bytes of an optional slice.
pub open spec fn slice_bytes(r: Option<&[u8]>) -> Option<Seq<u8>> {
    match r {
        Some(b) => Some(b@),
        None => None,
    }
}

impl RedisValue {
    /// The text of a scalar value, as an owned string.
    pub fn as_string(&self) -> (r: Option<String>)
        ensures
            string_bytes(r) == self@.scalar_text(),
    {
        match self {
            RedisValue::Boolean(b) => Some(
                if *b {
                    "true".to_owned()
                } else {
                    "false".to_owned()
                },
            ),
            RedisValue::Double(d) => Some(str_as_str(d.text()).to_owned()),
            RedisValue::String(s) => Some(str_as_str(s).to_owned()),
            RedisValue::Bytes(b) => string_from_utf8(slice_to_vec(bytes_as_slice(b))),
            RedisValue::Integer(i) => Some(i64_to_string(*i)),
            RedisValue::Queued => Some(QUEUED.to_owned()),
            _ => None,
        }
    }

    /// The text of a scalar value.
    pub fn as_str(&self) -> (r: Option<String>)
        ensures
            string_bytes(r) == self@.scalar_text(),
    {
        self.as_string()
    }

    /// The text of a scalar value, where bytes that are not valid UTF-8 are read leniently:
    /// each malformed part becomes U+FFFD.
    pub fn as_str_lossy(&self) -> (r: Option<String>)
        ensures
            match self@ {
                ValueView::Bytes(b) => r matches Some(s) && s@ == utf8_lossy(b) && (valid_utf8(b)
                    ==> encode_utf8(s@) == b),
                v => string_bytes(r) == v.scalar_text(),
            },
    {
        match self {
            RedisValue::Bytes(b) => Some(string_from_utf8_lossy(bytes_as_slice(b))),
            _ => self.as_string(),
        }
    }

    /// The text of a scalar value or of the only element of an array.
    pub fn into_string(self) -> (r: Option<String>)
        ensures
            string_bytes(r) == self@.text(),
        decreases self,
    {
        match self {
            RedisValue::Array(mut inner) => {
                proof {
                    lemma_views_of(inner@);
                }
                if inner.len() == 1 {
                    match inner.pop() {
                        Some(v) => v.into_string(),
                        None => None,
                    }
                } else {
                    None
                }
            },
            _ => self.as_string(),
        }
    }

    /// The text of a scalar value or of the only element of an array, in a shared buffer.
    pub fn as_bytes_str(&self) -> (r: Option<Str>)
        ensures
            str_bytes(r) == self@.text(),
        decreases self,
    {
        match self {
            RedisValue::Boolean(b) => Some(
                if *b {
                    str_from_static("true")
                } else {
                    str_from_static("false")
                },
            ),
            RedisValue::Double(d) => Some(str_clone(d.text())),
            RedisValue::String(s) => Some(str_clone(s)),
            RedisValue::Bytes(b) => match str_from_inner(bytes_clone(b)) {
                Ok(s) => Some(s),
                Err(_) => None,
            },
            RedisValue::Integer(i) => Some(str_from_string(i64_to_string(*i))),
            RedisValue::Queued => Some(str_from_static(QUEUED)),
            RedisValue::Array(inner) => {
                proof {
                    lemma_views_of(inner@);
                }
                if inner.len() == 1 {
                    inner[0].as_bytes_str()
                } else {
                    None
                }
            },
            _ => None,
        }
    }

    /// The text of a scalar value or of the only element of an array, in a shared buffer; the
    /// value's own buffer is reused where it has one.
    pub fn into_bytes_str(self) -> (r: Option<Str>)
        ensures
            str_bytes(r) == self@.text(),
        decreases self,
    {
        match self {
            RedisValue::Double(d) => Some(d.into_text()),
            RedisValue::String(s) => Some(s),
            RedisValue::Bytes(b) => match str_from_inner(b) {
                Ok(s) => Some(s),
                Err(_) => None,
            },
            RedisValue::Array(mut inner) => {
                proof {
                    lemma_views_of(inner@);
                }
                if inner.len() == 1 {
                    match inner.pop() {
                        Some(v) => v.into_bytes_str(),
                        None => None,
                    }
                } else {
                    None
                }
            },
            _ => self.as_bytes_str(),
        }
    }

    /// The bytes of text, of raw bytes or of the queued acknowledgement, borrowed.
    pub fn as_bytes(&self) -> (r: Option<&[u8]>)
        ensures
            slice_bytes(r) == self@.borrowed_bytes(),
    {
        match self {
            RedisValue::String(s) => Some(bytes_as_slice(str_inner(s))),
            RedisValue::Bytes(b) => Some(bytes_as_slice(b)),
            RedisValue::Queued => Some(QUEUED.as_bytes()),
            _ => None,
        }
    }

    /// The value as a freshly allocated vector of bytes.
    pub fn into_owned_bytes(self) -> (r: Option<Vec<u8>>)
        ensures
            vec_bytes(r) == self@.owned_bytes(),
        decreases self,
    {
        match self {
            RedisValue::String(s) => Some(slice_to_vec(bytes_as_slice(str_inner(&s)))),
            RedisValue::Bytes(b) => Some(slice_to_vec(bytes_as_slice(&b))),
            RedisValue::Queued => Some(slice_to_vec(QUEUED.as_bytes())),
            RedisValue::Array(mut inner) => {
                proof {
                    lemma_views_of(inner@);
                }
                if inner.len() == 1 {
                    match inner.pop() {
                        Some(v) => v.into_owned_bytes(),
                        None => None,
                    }
                } else {
                    None
                }
            },
            RedisValue::Integer(i) => Some(slice_to_vec(i64_to_string(i).as_str().as_bytes())),
            _ => None,
        }
    }

    /// The value as a buffer of bytes; the value's own buffer is reused where it has one.
    pub fn into_bytes(self) -> (r: Option<Bytes>)
        ensures
            buffer_bytes(r) == self@.owned_bytes(),
        decreases self,
    {
        match self {
            RedisValue::String(s) => Some(str_into_inner(s)),
            RedisValue::Bytes(b) => Some(b),
            RedisValue::Queued => Some(bytes_from_static(QUEUED.as_bytes())),
            RedisValue::Array(mut inner) => {
                proof {
                    lemma_views_of(inner@);
                }
                if inner.len() == 1 {
                    match inner.pop() {
                        Some(v) => v.into_bytes(),
                        None => None,
                    }
                } else {
                    None
                }
            },
            RedisValue::Integer(i) => Some(str_into_inner(str_from_string(i64_to_string(i)))),
            _ => None,
        }
    }
}

} // verus!
