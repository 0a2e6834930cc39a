//! The byte buffers that values are stored in.
//!
//! Keys and values keep their payload in `bytes::Bytes` and `bytes_utils::Str`, cheaply cloneable
//! shared buffers. The verifier cannot look inside them, so this module gives their contents a
//! name and states, for each operation the library uses, how it acts on those contents. Nothing
//! in this module is proved: every contract here is read off the buffer crates' sources.

use bytes::Bytes;
use bytes_utils::Str;
use vstd::prelude::*;
use vstd::utf8::{encode_utf8, valid_utf8};

verus! {

#[verifier::external_type_specification]
#[verifier::external_body]
pub struct ExBytes(bytes::Bytes);

#[verifier::external_type_specification]
#[verifier::external_body]
#[verifier::reject_recursive_types(S)]
pub struct ExStrInner<S>(bytes_utils::string::StrInner<S>);

/// The bytes that a `Bytes` buffer holds, in order.
pub uninterp spec fn bytes_seq(b: Bytes) -> Seq<u8>;

/// The bytes that a `Str` holds, in order. They are the UTF-8 encoding of its text.
pub uninterp spec fn str_seq(s: Str) -> Seq<u8>;

/// What `String::from_utf8_lossy` makes of a byte sequence: its text, with each malformed part
/// replaced by U+FFFD.
pub uninterp spec fn utf8_lossy(bytes: Seq<u8>) -> Seq<char>;

/// `Bytes::from_static`: a buffer over exactly the given bytes.
#[verifier::external_body]
pub(crate) fn bytes_from_static(data: &'static [u8]) -> (b: Bytes)
    ensures
        bytes_seq(b) == data@,
{
    Bytes::from_static(data)
}

/// `Bytes::from(Vec<u8>)`: the buffer takes over the vector and holds exactly its bytes.
#[verifier::external_body]
pub(crate) fn bytes_from_vec(data: Vec<u8>) -> (b: Bytes)
    ensures
        bytes_seq(b) == data@,
{
    Bytes::from(data)
}

/// `Deref for Bytes`: the buffer read as a slice, byte for byte.
#[verifier::external_body]
pub(crate) fn bytes_as_slice(b: &Bytes) -> (s: &[u8])
    ensures
        s@ == bytes_seq(*b),
{
    std::ops::Deref::deref(b)
}

/// `Clone for Bytes`: a second handle on the same bytes.
#[verifier::external_body]
pub(crate) fn bytes_clone(b: &Bytes) -> (c: Bytes)
    ensures
        bytes_seq(c) == bytes_seq(*b),
{
    b.clone()
}

/// `Bytes::split_to`: returns the first `at` bytes and leaves the rest in place. It panics
/// when `at` exceeds the length, which the precondition rules out.
#[verifier::external_body]
pub(crate) fn bytes_split_to(b: &mut Bytes, at: usize) -> (head: Bytes)
    requires
        at <= bytes_seq(*old(b)).len(),
    ensures
        bytes_seq(head) == bytes_seq(*old(b)).subrange(0, at as int),
        bytes_seq(*final(b)) == bytes_seq(*old(b)).subrange(
            at as int,
            bytes_seq(*old(b)).len() as int,
        ),
{
    b.split_to(at)
}

/// `Str::from_static`: a string over the literal's UTF-8 bytes.
#[verifier::external_body]
pub(crate) fn str_from_static(text: &'static str) -> (s: Str)
    ensures
        str_seq(s) == encode_utf8(text@),
{
    Str::from_static(text)
}

/// `From<String> for Str`: the string's UTF-8 bytes move into a shared buffer unchanged.
#[verifier::external_body]
pub(crate) fn str_from_string(text: String) -> (s: Str)
    ensures
        str_seq(s) == encode_utf8(text@),
{
    Str::from(text)
}

/// `Str::from_inner`: accepts the buffer exactly when its bytes are valid UTF-8, and otherwise
/// hands the buffer back (taken out of the error with `Utf8Error::into_inner`).
#[verifier::external_body]
pub(crate) fn str_from_inner(b: Bytes) -> (r: Result<Str, Bytes>)
    ensures
        match r {
            Ok(s) => valid_utf8(bytes_seq(b)) && str_seq(s) == bytes_seq(b),
            Err(e) => !valid_utf8(bytes_seq(b)) && bytes_seq(e) == bytes_seq(b),
        },
{
    Str::from_inner(b).map_err(|e| e.into_inner())
}

/// `Str::into_inner`: gives up the underlying buffer, bytes unchanged.
#[verifier::external_body]
pub(crate) fn str_into_inner(s: Str) -> (b: Bytes)
    ensures
        bytes_seq(b) == str_seq(s),
{
    s.into_inner()
}

/// `Str::inner`: a view of the underlying buffer.
#[verifier::external_body]
pub(crate) fn str_inner(s: &Str) -> (b: &Bytes)
    ensures
        bytes_seq(*b) == str_seq(*s),
{
    s.inner()
}

/// `Deref for Str`: the text as a string slice, whose UTF-8 bytes are the buffer's.
#[verifier::external_body]
pub(crate) fn str_as_str(s: &Str) -> (text: &str)
    ensures
        encode_utf8(text@) == str_seq(*s),
{
    std::ops::Deref::deref(s)
}

/// `Clone for Str`: a second handle on the same bytes.
#[verifier::external_body]
pub(crate) fn str_clone(s: &Str) -> (c: Str)
    ensures
        str_seq(c) == str_seq(*s),
{
    s.clone()
}

/// `std::str::from_utf8`: succeeds exactly on valid UTF-8, and then the text's encoding is the
/// input.
#[verifier::external_body]
pub(crate) fn str_from_utf8(data: &[u8]) -> (r: Option<&str>)
    ensures
        r is Some <==> valid_utf8(data@),
        r matches Some(s) ==> encode_utf8(s@) == data@,
{
    std::str::from_utf8(data).ok()
}

/// `String::from_utf8`: succeeds exactly on valid UTF-8, and then the string's encoding is the
/// input.
#[verifier::external_body]
pub(crate) fn string_from_utf8(data: Vec<u8>) -> (r: Option<String>)
    ensures
        r is Some <==> valid_utf8(data@),
        r matches Some(s) ==> encode_utf8(s@) == data@,
{
    String::from_utf8(data).ok()
}

/// `String::from_utf8_lossy`: always yields text; on valid UTF-8 it is the text that the bytes
/// encode.
#[verifier::external_body]
pub(crate) fn string_from_utf8_lossy(data: &[u8]) -> (s: String)
    ensures
        s@ == utf8_lossy(data@),
        valid_utf8(data@) ==> encode_utf8(s@) == data@,
{
    String::from_utf8_lossy(data).into_owned()
}

} // verus!
