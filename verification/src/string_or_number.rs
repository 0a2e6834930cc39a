//! An argument that is either text or a number.

use crate::buffer::{
    bytes_as_slice, str_clone, str_from_inner, str_from_static, str_from_string, str_inner,
    str_seq,
};
use crate::equality::{doubles_close, ulps_apart};
use crate::error::{RedisError, RedisErrorKind};
use crate::value::{
    bytes_eq, utf8, DoubleValue, DoubleView, RedisValue, ValueView,
};
use bytes_utils::Str;
use vstd::prelude::*;
use vstd::std_specs::convert::{FromSpecImpl, TryFromSpecImpl};
use vstd::utf8::{encode_utf8, valid_utf8};

verus! {

/// An argument that is either text or a number.
#[derive(Debug)]
pub enum StringOrNumber {
    String(Str),
    Number(i64),
    Double(DoubleValue),
}

/// What a [`StringOrNumber`] stands for.
pub enum StringOrNumberView {
    String(Seq<u8>),
    Number(i64),
    Double(DoubleView),
}

impl View for StringOrNumber {
    type V = StringOrNumberView;

    open spec fn view(&self) -> StringOrNumberView {
        match self {
            StringOrNumber::String(s) => StringOrNumberView::String(str_seq(*s)),
            StringOrNumber::Number(n) => StringOrNumberView::Number(*n),
            StringOrNumber::Double(d) => StringOrNumberView::Double(d@),
        }
    }
}

impl StringOrNumberView {
    /// The value that carries the argument.
    pub open spec fn as_value(self) -> ValueView {
        match self {
            StringOrNumberView::String(s) => ValueView::String(s),
            StringOrNumberView::Number(n) => ValueView::Integer(n),
            StringOrNumberView::Double(d) => ValueView::Double(d),
        }
    }

    /// Whether two arguments are equal: text byte for byte, integers exactly, and numbers of
    /// double precision when their bit patterns are at most two units in the last place
    /// apart.
    pub open spec fn equals(self, other: StringOrNumberView) -> bool {
        match (self, other) {
            (StringOrNumberView::String(a), StringOrNumberView::String(b)) => a == b,
            (StringOrNumberView::Number(a), StringOrNumberView::Number(b)) => a == b,
            (StringOrNumberView::Double(a), StringOrNumberView::Double(b)) => ulps_apart(
                a.bits,
                b.bits,
            ) <= 2,
            _ => false,
        }
    }
}

/// The argument that a value makes: text and numbers as they are, and bytes as text if they
/// are valid UTF-8. Bytes that are not are a `Parse` error, and every other value is an
/// `InvalidArgument`.
pub open spec fn argument_of(value: ValueView) -> Result<StringOrNumberView, RedisErrorKind> {
    match value {
        ValueView::String(s) => Ok(StringOrNumberView::String(s)),
        ValueView::Integer(i) => Ok(StringOrNumberView::Number(i)),
        ValueView::Double(d) => Ok(StringOrNumberView::Double(d)),
        ValueView::Bytes(b) => if valid_utf8(b) {
            Ok(StringOrNumberView::String(b))
        } else {
            Err(RedisErrorKind::Parse)
        },
        _ => Err(RedisErrorKind::InvalidArgument),
    }
}

impl Clone for StringOrNumber {
    fn clone(&self) -> (r: Self)
        ensures
            r@ == self@,
    {
        match self {
            StringOrNumber::String(s) => StringOrNumber::String(str_clone(s)),
            StringOrNumber::Number(n) => StringOrNumber::Number(*n),
            StringOrNumber::Double(d) => StringOrNumber::Double(d.clone()),
        }
    }
}

impl PartialEq for StringOrNumber {
    fn eq(&self, other: &Self) -> (r: bool) {
        match (self, other) {
            (StringOrNumber::String(a), StringOrNumber::String(b)) => bytes_eq(
                bytes_as_slice(str_inner(a)),
                bytes_as_slice(str_inner(b)),
            ),
            (StringOrNumber::Number(a), StringOrNumber::Number(b)) => *a == *b,
            (StringOrNumber::Double(a), StringOrNumber::Double(b)) => doubles_close(
                a.bits(),
                b.bits(),
            ),
            _ => false,
        }
    }
}

impl vstd::std_specs::cmp::PartialEqSpecImpl for StringOrNumber {
    open spec fn obeys_eq_spec() -> bool {
        true
    }

    open spec fn eq_spec(&self, other: &Self) -> bool {
        self@.equals(other@)
    }
}

impl Eq for StringOrNumber {

}

impl StringOrNumber {
    /// Text over a static string, without copying it.
    pub fn from_static_str(s: &'static str) -> (r: Self)
        ensures
            r@ == StringOrNumberView::String(utf8(s)),
    {
        StringOrNumber::String(str_from_static(s))
    }

    /// The value that carries the argument in a command.
    pub fn into_arg(self) -> (v: RedisValue)
        ensures
            v@ == self@.as_value(),
    {
        match self {
            StringOrNumber::String(s) => RedisValue::String(s),
            StringOrNumber::Number(n) => RedisValue::Integer(n),
            StringOrNumber::Double(f) => RedisValue::Double(f),
        }
    }

    /// The argument that a value makes.
    pub fn from_value(value: RedisValue) -> (r: Result<StringOrNumber, RedisError>)
        ensures
            match argument_of(value@) {
                Ok(a) => r matches Ok(x) && x@ == a,
                Err(kind) => r matches Err(e) && e.kind() == kind,
            },
    {
        match value {
            RedisValue::String(s) => Ok(StringOrNumber::String(s)),
            RedisValue::Integer(i) => Ok(StringOrNumber::Number(i)),
            RedisValue::Double(f) => Ok(StringOrNumber::Double(f)),
            RedisValue::Bytes(b) => match str_from_inner(b) {
                Ok(s) => Ok(StringOrNumber::String(s)),
                Err(_) => Err(RedisError::new(RedisErrorKind::Parse, "Invalid UTF-8.")),
            },
            _ => Err(RedisError::new(RedisErrorKind::InvalidArgument, "")),
        }
    }
}

impl TryFrom<RedisValue> for StringOrNumber {
    type Error = RedisError;

    fn try_from(value: RedisValue) -> (r: Result<Self, RedisError>)
        ensures
            match argument_of(value@) {
                Ok(a) => r matches Ok(x) && x@ == a,
                Err(kind) => r matches Err(e) && e.kind() == kind,
            },
    {
        StringOrNumber::from_value(value)
    }
}

impl TryFromSpecImpl<RedisValue> for StringOrNumber {
    open spec fn obeys_try_from_spec() -> bool {
        false
    }

    open spec fn try_from_spec(value: RedisValue) -> Result<Self, RedisError> {
        arbitrary()
    }
}

impl<'a> From<&'a str> for StringOrNumber {
    fn from(s: &'a str) -> (r: Self)
        ensures
            r@ == StringOrNumberView::String(encode_utf8(s@)),
    {
        StringOrNumber::String(str_from_string(s.to_owned()))
    }
}

impl<'a> FromSpecImpl<&'a str> for StringOrNumber {
    open spec fn obeys_from_spec() -> bool {
        false
    }

    open spec fn from_spec(s: &'a str) -> Self {
        arbitrary()
    }
}

impl From<String> for StringOrNumber {
    fn from(s: String) -> (r: Self)
        ensures
            r@ == StringOrNumberView::String(encode_utf8(s@)),
    {
        StringOrNumber::String(str_from_string(s))
    }
}

impl FromSpecImpl<String> for StringOrNumber {
    open spec fn obeys_from_spec() -> bool {
        false
    }

    open spec fn from_spec(s: String) -> Self {
        arbitrary()
    }
}

impl From<Str> for StringOrNumber {
    fn from(s: Str) -> (r: Self) {
        StringOrNumber::String(s)
    }
}

impl FromSpecImpl<Str> for StringOrNumber {
    open spec fn obeys_from_spec() -> bool {
        true
    }

    open spec fn from_spec(s: Str) -> Self {
        StringOrNumber::String(s)
    }
}

impl From<i64> for StringOrNumber {
    fn from(n: i64) -> (r: Self) {
        StringOrNumber::Number(n)
    }
}

impl FromSpecImpl<i64> for StringOrNumber {
    open spec fn obeys_from_spec() -> bool {
        true
    }

    open spec fn from_spec(n: i64) -> Self {
        StringOrNumber::Number(n)
    }
}

impl From<DoubleValue> for StringOrNumber {
    fn from(d: DoubleValue) -> (r: Self) {
        StringOrNumber::Double(d)
    }
}

impl FromSpecImpl<DoubleValue> for StringOrNumber {
    open spec fn obeys_from_spec() -> bool {
        true
    }

    open spec fn from_spec(d: DoubleValue) -> Self {
        StringOrNumber::Double(d)
    }
}

impl From<u8> for StringOrNumber {
    fn from(n: u8) -> (r: Self) {
        StringOrNumber::Number(n as i64)
    }
}

impl FromSpecImpl<u8> for StringOrNumber {
    open spec fn obeys_from_spec() -> bool {
        true
    }

    open spec fn from_spec(n: u8) -> Self {
        StringOrNumber::Number(n as i64)
    }
}

impl From<u16> for StringOrNumber {
    fn from(n: u16) -> (r: Self) {
        StringOrNumber::Number(n as i64)
    }
}

impl FromSpecImpl<u16> for StringOrNumber {
    open spec fn obeys_from_spec() -> bool {
        true
    }

    open spec fn from_spec(n: u16) -> Self {
        StringOrNumber::Number(n as i64)
    }
}

impl From<u32> for StringOrNumber {
    fn from(n: u32) -> (r: Self) {
        StringOrNumber::Number(n as i64)
    }
}

impl FromSpecImpl<u32> for StringOrNumber {
    open spec fn obeys_from_spec() -> bool {
        true
    }

    open spec fn from_spec(n: u32) -> Self {
        StringOrNumber::Number(n as i64)
    }
}

impl From<i8> for StringOrNumber {
    fn from(n: i8) -> (r: Self) {
        StringOrNumber::Number(n as i64)
    }
}

impl FromSpecImpl<i8> for StringOrNumber {
    open spec fn obeys_from_spec() -> bool {
        true
    }

    open spec fn from_spec(n: i8) -> Self {
        StringOrNumber::Number(n as i64)
    }
}

impl From<i16> for StringOrNumber {
    fn from(n: i16) -> (r: Self) {
        StringOrNumber::Number(n as i64)
    }
}

impl FromSpecImpl<i16> for StringOrNumber {
    open spec fn obeys_from_spec() -> bool {
        true
    }

    open spec fn from_spec(n: i16) -> Self {
        StringOrNumber::Number(n as i64)
    }
}

impl From<i32> for StringOrNumber {
    fn from(n: i32) -> (r: Self) {
        StringOrNumber::Number(n as i64)
    }
}

impl FromSpecImpl<i32> for StringOrNumber {
    open spec fn obeys_from_spec() -> bool {
        true
    }

    open spec fn from_spec(n: i32) -> Self {
        StringOrNumber::Number(n as i64)
    }
}

impl From<u64> for StringOrNumber {
    /// The number `n` cut down to 64 bits with a sign: a number above the largest `i64` comes
    /// out negative.
    fn from(n: u64) -> (r: Self) {
        StringOrNumber::Number(#[verifier::truncate] (n as i64))
    }
}

impl FromSpecImpl<u64> for StringOrNumber {
    open spec fn obeys_from_spec() -> bool {
        true
    }

    open spec fn from_spec(n: u64) -> Self {
        StringOrNumber::Number(n as i64)
    }
}

impl From<usize> for StringOrNumber {
    /// The number `n` cut down to 64 bits with a sign: a number above the largest `i64` comes
    /// out negative.
    fn from(n: usize) -> (r: Self) {
        StringOrNumber::Number(#[verifier::truncate] (n as i64))
    }
}

impl FromSpecImpl<usize> for StringOrNumber {
    open spec fn obeys_from_spec() -> bool {
        true
    }

    open spec fn from_spec(n: usize) -> Self {
        StringOrNumber::Number(n as i64)
    }
}

impl From<isize> for StringOrNumber {
    /// The number `n` cut down to 64 bits with a sign: a number above the largest `i64` comes
    /// out negative.
    fn from(n: isize) -> (r: Self) {
        StringOrNumber::Number(#[verifier::truncate] (n as i64))
    }
}

impl FromSpecImpl<isize> for StringOrNumber {
    open spec fn obeys_from_spec() -> bool {
        true
    }

    open spec fn from_spec(n: isize) -> Self {
        StringOrNumber::Number(n as i64)
    }
}

} // verus!
