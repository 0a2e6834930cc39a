//! Helpers that callers may find useful on their own.

use sha1::{Digest, Sha1};
use vstd::prelude::*;
use vstd::string::{StrSliceExecFns, StringExecFns};
use vstd::utf8::encode_utf8;

verus! {

/// The digits of lower-case hexadecimal text, in order.
pub const HEX_DIGITS: &'static str = "0123456789abcdef";

/// The SHA-1 digest of a byte sequence, as `sha1::Sha1` computes it.
pub uninterp spec fn sha1_digest(input: Seq<u8>) -> Seq<u8>;

/// `Sha1::new`, `update` and `finalize`: the digest of the input, which is twenty bytes long
/// and depends on the input alone.
#[verifier::external_body]
fn sha1(input: &[u8]) -> (digest: Vec<u8>)
    ensures
        digest@ == sha1_digest(input@),
        digest@.len() == 20,
{
    let mut hasher = Sha1::new();
    hasher.update(input);
    hasher.finalize().to_vec()
}

/// Bytes in lower-case hexadecimal: two digits for each byte, the high half first.
pub open spec fn hex_lower(bytes: Seq<u8>) -> Seq<char> {
    Seq::new(
        2 * bytes.len(),
        |i: int|
            if i % 2 == 0 {
                HEX_DIGITS@[bytes[i / 2] as int / 16]
            } else {
                HEX_DIGITS@[bytes[i / 2] as int % 16]
            },
    )
}

/// Writes bytes in lower-case hexadecimal.
pub fn to_hex(bytes: &[u8]) -> (text: String)
    ensures
        text@ == hex_lower(bytes@),
{
    proof {
        reveal_strlit("0123456789abcdef");
    }
    assert(HEX_DIGITS.is_ascii());
    let mut text = String::new();
    let mut i: usize = 0;
    while i < bytes.len()
        invariant
            i <= bytes.len(),
            HEX_DIGITS.is_ascii(),
            HEX_DIGITS@.len() == 16,
            text@ == hex_lower(bytes@.take(i as int)),
        decreases bytes.len() - i,
    {
        let b: u8 = bytes[i];
        let high: usize = (b / 16) as usize;
        let low: usize = (b % 16) as usize;
        let ghost before = text@;
        text.append(HEX_DIGITS.substring_ascii(high, high + 1));
        text.append(HEX_DIGITS.substring_ascii(low, low + 1));
        proof {
            let taken = bytes@.take(i as int);
            let next = bytes@.take(i + 1);
            assert(text@ =~= before + seq![HEX_DIGITS@[high as int], HEX_DIGITS@[low as int]]);
            assert forall|k: int| 0 <= k < 2 * next.len() implies text@[k] == hex_lower(next)[k] by {
                if k < 2 * i {
                    assert(taken[k / 2] == next[k / 2]);
                    assert(text@[k] == hex_lower(taken)[k]);
                } else {
                    assert(next[k / 2] == b);
                }
            }
            assert(text@ =~= hex_lower(next));
        }
        i = i + 1;
    }
    assert(bytes@.take(i as int) =~= bytes@);
    text
}

/// The SHA-1 digest of a text's UTF-8 bytes, in lower-case hexadecimal. This is how scripts
/// are named in the server's script cache.
pub fn sha1_hash(input: &str) -> (text: String)
    ensures
        text@ == hex_lower(sha1_digest(encode_utf8(input@))),
        text@.len() == 40,
{
    let digest = sha1(input.as_bytes());
    to_hex(digest.as_slice())
}

} // verus!
