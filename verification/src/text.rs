//! Decimal integers as text: how they are read from, and written to, ASCII bytes.

use vstd::prelude::*;
use vstd::utf8::encode_utf8;

verus! {

/// `b` is one of the ASCII digits `0` to `9`.
pub open spec fn is_digit(b: u8) -> bool {
    48 <= b <= 57
}

/// Every byte of `s` is an ASCII digit.
pub open spec fn all_digits(s: Seq<u8>) -> bool {
    forall|i: int| 0 <= i < s.len() ==> is_digit(#[trigger] s[i])
}

/// The number that a run of digits denotes, most significant digit first.
pub open spec fn digits_value(s: Seq<u8>) -> nat
    decreases s.len(),
{
    if s.len() == 0 {
        0
    } else {
        digits_value(s.drop_last()) * 10 + (s.last() - 48) as nat
    }
}

/// The number written by a non-empty run of digits, if it is at most `max`.
pub open spec fn parse_digits(s: Seq<u8>, max: nat) -> Option<nat> {
    if s.len() > 0 && all_digits(s) && digits_value(s) <= max {
        Some(digits_value(s))
    } else {
        None
    }
}

/// An unsigned decimal: an optional `+`, then digits, with a value of at most `max`.
pub open spec fn parse_unsigned(s: Seq<u8>, max: nat) -> Option<nat> {
    if s.len() > 0 && s[0] == 43 {
        parse_digits(s.drop_first(), max)
    } else {
        parse_digits(s, max)
    }
}

/// A signed 64-bit decimal: an optional `+` or `-`, then digits, with a value in range.
pub open spec fn parse_signed(s: Seq<u8>) -> Option<int> {
    if s.len() > 0 && s[0] == 45 {
        match parse_digits(s.drop_first(), 0x8000_0000_0000_0000) {
            Some(n) => Some(-(n as int)),
            None => None,
        }
    } else {
        match parse_unsigned(s, 0x7fff_ffff_ffff_ffff) {
            Some(n) => Some(n as int),
            None => None,
        }
    }
}

/// The digits of `n`, without leading zeros.
pub open spec fn decimal_digits(n: nat) -> Seq<u8>
    decreases n,
{
    if n < 10 {
        seq![(48 + n) as u8]
    } else {
        decimal_digits(n / 10).push((48 + n % 10) as u8)
    }
}

/// The decimal text of `i`: a `-` for negative numbers, then the digits.
pub open spec fn decimal_bytes(i: int) -> Seq<u8> {
    if i < 0 {
        seq![45u8] + decimal_digits((-i) as nat)
    } else {
        decimal_digits(i as nat)
    }
}

/// A prefix of a run of digits never denotes more than the whole run.
proof fn lemma_prefix_value(s: Seq<u8>, k: int)
    requires
        0 <= k <= s.len(),
    ensures
        digits_value(s.take(k)) <= digits_value(s),
    decreases s.len() - k,
{
    if k == s.len() {
        assert(s.take(k) =~= s);
    } else {
        lemma_prefix_value(s, k + 1);
        assert(s.take(k + 1).drop_last() =~= s.take(k));
    }
}

/// Reads the digits `bytes[start..]` as a number of at most `max`.
fn read_digits(bytes: &[u8], start: usize, max: u64) -> (r: Option<u64>)
    requires
        start <= bytes.len(),
    ensures
        r matches Some(n) ==> parse_digits(bytes@.skip(start as int), max as nat) == Some(
            n as nat,
        ),
        r is None ==> parse_digits(bytes@.skip(start as int), max as nat) is None,
{
    let ghost digits = bytes@.skip(start as int);
    if start == bytes.len() {
        return None;
    }
    let mut acc: u64 = 0;
    let mut i: usize = start;
    while i < bytes.len()
        invariant
            start <= i <= bytes.len(),
            digits == bytes@.skip(start as int),
            all_digits(digits.take(i - start)),
            acc == digits_value(digits.take(i - start)),
            acc <= max,
        decreases bytes.len() - i,
    {
        let b: u8 = bytes[i];
        let ghost prefix = digits.take(i - start);
        let ghost next = digits.take(i - start + 1);
        proof {
            assert(next.drop_last() =~= prefix);
            assert(next.last() == b);
            lemma_prefix_value(digits, i - start + 1);
        }
        if b < 48 || b > 57 {
            assert(!is_digit(digits[i - start]));
            return None;
        }
        let d: u64 = (b - 48) as u64;
        if d > max || acc > (max - d) / 10 {
            assert(digits_value(next) == acc * 10 + d);
            return None;
        }
        acc = acc * 10 + d;
        i = i + 1;
        proof {
            assert forall|j: int| 0 <= j < next.len() implies is_digit(#[trigger] next[j]) by {
                if j < prefix.len() {
                    assert(next[j] == prefix[j]);
                }
            }
        }
    }
    assert(digits.take(i - start) =~= digits);
    Some(acc)
}

/// Reads an unsigned 64-bit decimal as `str::parse::<u64>` does: an optional `+`, then at least
/// one digit, and nothing else.
pub fn parse_u64(bytes: &[u8]) -> (r: Option<u64>)
    ensures
        r matches Some(n) ==> parse_unsigned(bytes@, u64::MAX as nat) == Some(n as nat),
        r is None ==> parse_unsigned(bytes@, u64::MAX as nat) is None,
{
    parse_upto(bytes, u64::MAX)
}

/// Reads an unsigned decimal of at most `max`: an optional `+`, then at least one digit, and
/// nothing else.
pub fn parse_upto(bytes: &[u8], max: u64) -> (r: Option<u64>)
    ensures
        r matches Some(n) ==> parse_unsigned(bytes@, max as nat) == Some(n as nat),
        r is None ==> parse_unsigned(bytes@, max as nat) is None,
{
    if bytes.len() > 0 && bytes[0] == 43 {
        assert(bytes@.skip(1) =~= bytes@.drop_first());
        read_digits(bytes, 1, max)
    } else {
        assert(bytes@.skip(0) =~= bytes@);
        read_digits(bytes, 0, max)
    }
}

/// Reads a signed 64-bit decimal as `str::parse::<i64>` does: an optional sign, then at least
/// one digit, and nothing else.
pub fn parse_i64(bytes: &[u8]) -> (r: Option<i64>)
    ensures
        r matches Some(n) ==> parse_signed(bytes@) == Some(n as int),
        r is None ==> parse_signed(bytes@) is None,
{
    if bytes.len() > 0 && bytes[0] == 45 {
        assert(bytes@.skip(1) =~= bytes@.drop_first());
        match read_digits(bytes, 1, 0x8000_0000_0000_0000) {
            Some(n) => {
                if n == 0x8000_0000_0000_0000 {
                    Some(i64::MIN)
                } else {
                    Some(-(n as i64))
                }
            },
            None => None,
        }
    } else if bytes.len() > 0 && bytes[0] == 43 {
        assert(bytes@.skip(1) =~= bytes@.drop_first());
        match read_digits(bytes, 1, 0x7fff_ffff_ffff_ffff) {
            Some(n) => Some(n as i64),
            None => None,
        }
    } else {
        assert(bytes@.skip(0) =~= bytes@);
        match read_digits(bytes, 0, 0x7fff_ffff_ffff_ffff) {
            Some(n) => Some(n as i64),
            None => None,
        }
    }
}

/// `ToString for i64`: the decimal text of the number.
#[verifier::external_body]
pub(crate) fn i64_to_string(i: i64) -> (s: String)
    ensures
        encode_utf8(s@) == decimal_bytes(i as int),
{
    i.to_string()
}

/// The first index at or after `from` at which `b` stands in `s`, or the length of `s` if
/// there is none.
pub open spec fn first_index(s: Seq<u8>, b: u8, from: int) -> int
    decreases s.len() - from,
{
    if from >= s.len() {
        s.len() as int
    } else if s[from] == b {
        from
    } else {
        first_index(s, b, from + 1)
    }
}

/// `first_index` stays within the sequence and, where it finds the byte, no earlier index at
/// or after `from` holds it.
pub proof fn lemma_first_index(s: Seq<u8>, b: u8, from: int)
    requires
        0 <= from,
    ensures
        from <= first_index(s, b, from) || s.len() <= from,
        first_index(s, b, from) <= s.len(),
        first_index(s, b, from) < s.len() ==> s[first_index(s, b, from)] == b,
        forall|i: int| from <= i < first_index(s, b, from) ==> s[i] != b,
    decreases s.len() - from,
{
    if from < s.len() && s[from] != b {
        lemma_first_index(s, b, from + 1);
    }
}

/// Finds the first `b` at or after `from`.
pub fn find_byte(s: &[u8], b: u8, from: usize) -> (i: usize)
    requires
        from <= s.len(),
    ensures
        i == first_index(s@, b, from as int),
        from <= i <= s.len(),
{
    let mut i: usize = from;
    while i < s.len() && s[i] != b
        invariant
            from <= i <= s.len(),
            first_index(s@, b, from as int) == first_index(s@, b, i as int),
        decreases s.len() - i,
    {
        i = i + 1;
    }
    i
}

/// The last index before `upto` at which `b` stands in `s`, or `-1` if there is none.
pub open spec fn last_index(s: Seq<u8>, b: u8, upto: int) -> int
    decreases upto,
{
    if upto <= 0 {
        -1
    } else if s[upto - 1] == b {
        upto - 1
    } else {
        last_index(s, b, upto - 1)
    }
}

/// Finds the last `b` in `s`.
pub fn find_last_byte(s: &[u8], b: u8) -> (r: Option<usize>)
    ensures
        match r {
            Some(i) => i < s.len() && i == last_index(s@, b, s.len() as int),
            None => last_index(s@, b, s.len() as int) == -1,
        },
{
    let mut i: usize = s.len();
    while i > 0
        invariant
            i <= s.len(),
            last_index(s@, b, s.len() as int) == last_index(s@, b, i as int),
        decreases i,
    {
        if s[i - 1] == b {
            return Some(i - 1);
        }
        i = i - 1;
    }
    None
}

/// The first index at or after `from` at which no digit stands in `s`, or the length of `s`.
pub open spec fn digits_end(s: Seq<u8>, from: int) -> int
    decreases s.len() - from,
{
    if from >= s.len() {
        s.len() as int
    } else if !is_digit(s[from]) {
        from
    } else {
        digits_end(s, from + 1)
    }
}

/// A letter in lower case; every other byte as it is.
pub open spec fn lower_byte(b: u8) -> u8 {
    if 65 <= b <= 90 {
        (b + 32) as u8
    } else {
        b
    }
}

/// Text with its letters in lower case.
pub open spec fn lower(s: Seq<u8>) -> Seq<u8> {
    s.map_values(|b: u8| lower_byte(b))
}

/// Whether `b` is a sign, `+` or `-`.
pub open spec fn is_sign(b: u8) -> bool {
    b == 43 || b == 45
}

/// Whether text without a sign spells a number: digits with an optional point among, before
/// or after them, and an optional exponent, which is `e` or `E`, an optional sign, and digits.
pub open spec fn is_unsigned_number(s: Seq<u8>) -> bool {
    let whole_end = digits_end(s, 0);
    let has_point = whole_end < s.len() && s[whole_end] == 46;
    let mantissa_end = if has_point {
        digits_end(s, whole_end + 1)
    } else {
        whole_end
    };
    let has_digits = whole_end > 0 || (has_point && mantissa_end > whole_end + 1);
    if !has_digits {
        false
    } else if mantissa_end == s.len() {
        true
    } else if s[mantissa_end] == 101 || s[mantissa_end] == 69 {
        let exponent = if mantissa_end + 1 < s.len() && is_sign(s[mantissa_end + 1]) {
            mantissa_end + 2
        } else {
            mantissa_end + 1
        };
        exponent < s.len() && digits_end(s, exponent) == s.len() && is_digit(s[exponent])
    } else {
        false
    }
}

/// Whether text spells a number of double precision, as `str::parse::<f64>` reads it: an
/// optional sign, and then `inf`, `infinity` or `nan` in any case of letters, or a number.
pub open spec fn is_float_text(s: Seq<u8>) -> bool {
    let body = if s.len() > 0 && is_sign(s[0]) {
        s.drop_first()
    } else {
        s
    };
    lower(body) == seq![105u8, 110, 102] || lower(body) == seq![
        105u8,
        110,
        102,
        105,
        110,
        105,
        116,
        121,
    ] || lower(body) == seq![110u8, 97, 110] || is_unsigned_number(body)
}

/// Finds where the digits that begin at `from` end.
fn find_digits_end(s: &[u8], from: usize) -> (i: usize)
    requires
        from <= s.len(),
    ensures
        i == digits_end(s@, from as int),
        from <= i <= s.len(),
{
    let mut i: usize = from;
    while i < s.len() && s[i] >= 48 && s[i] <= 57
        invariant
            from <= i <= s.len(),
            digits_end(s@, from as int) == digits_end(s@, i as int),
        decreases s.len() - i,
    {
        i = i + 1;
    }
    i
}

/// Whether `s`, with its letters in lower case, is `word`.
fn is_word_ignoring_case(s: &[u8], word: &[u8]) -> (r: bool)
    ensures
        r == (lower(s@) == word@),
{
    if s.len() != word.len() {
        return false;
    }
    let mut i: usize = 0;
    while i < s.len()
        invariant
            i <= s.len(),
            s.len() == word.len(),
            forall|j: int| 0 <= j < i ==> lower_byte(s@[j]) == word@[j],
        decreases s.len() - i,
    {
        let b: u8 = s[i];
        let l: u8 = if 65 <= b && b <= 90 {
            b + 32
        } else {
            b
        };
        if l != word[i] {
            assert(lower(s@)[i as int] != word@[i as int]);
            return false;
        }
        i = i + 1;
    }
    assert(lower(s@) =~= word@);
    true
}

/// Whether the text that begins at `from` spells a number without a sign.
fn is_number_from(s: &[u8], from: usize) -> (r: bool)
    requires
        from <= s.len(),
    ensures
        r == is_unsigned_number(s@.skip(from as int)),
{
    let body = vstd::slice::slice_subrange(s, from, s.len());
    assert(body@ =~= s@.skip(from as int));
    let n: usize = body.len();
    let whole_end: usize = find_digits_end(body, 0);
    let has_point: bool = whole_end < n && body[whole_end] == 46;
    let mantissa_end: usize = if has_point {
        find_digits_end(body, whole_end + 1)
    } else {
        whole_end
    };
    let has_digits: bool = whole_end > 0 || (has_point && mantissa_end > whole_end + 1);
    if !has_digits {
        return false;
    }
    if mantissa_end == n {
        return true;
    }
    if body[mantissa_end] != 101 && body[mantissa_end] != 69 {
        return false;
    }
    let exponent: usize = if mantissa_end + 1 < n && (body[mantissa_end + 1] == 43
        || body[mantissa_end + 1] == 45) {
        mantissa_end + 2
    } else {
        mantissa_end + 1
    };
    if exponent >= n {
        return false;
    }
    if body[exponent] < 48 || body[exponent] > 57 {
        return false;
    }
    find_digits_end(body, exponent) == n
}

/// Whether text spells a number of double precision.
pub fn is_float(s: &[u8]) -> (r: bool)
    ensures
        r == is_float_text(s@),
{
    let from: usize = if s.len() > 0 && (s[0] == 43 || s[0] == 45) {
        1
    } else {
        0
    };
    let body = vstd::slice::slice_subrange(s, from, s.len());
    proof {
        if from == 1 {
            assert(body@ =~= s@.drop_first());
            assert(s@.skip(1) =~= s@.drop_first());
        } else {
            assert(body@ =~= s@);
            assert(s@.skip(0) =~= s@);
        }
    }
    let inf: [u8; 3] = [105, 110, 102];
    let infinity: [u8; 8] = [105, 110, 102, 105, 110, 105, 116, 121];
    let nan: [u8; 3] = [110, 97, 110];
    assert(inf@ =~= seq![105u8, 110, 102]);
    assert(infinity@ =~= seq![105u8, 110, 102, 105, 110, 105, 116, 121]);
    assert(nan@ =~= seq![110u8, 97, 110]);
    is_word_ignoring_case(body, inf.as_slice()) || is_word_ignoring_case(
        body,
        infinity.as_slice(),
    ) || is_word_ignoring_case(body, nan.as_slice()) || is_number_from(s, from)
}

/// The digits of a number are digits, at least one, and denote the number.
proof fn lemma_decimal_digits(n: nat)
    ensures
        decimal_digits(n).len() > 0,
        all_digits(decimal_digits(n)),
        digits_value(decimal_digits(n)) == n,
    decreases n,
{
    let d = decimal_digits(n);
    if n < 10 {
        assert(d.drop_last() =~= Seq::<u8>::empty());
        assert(digits_value(d.drop_last()) == 0);
    } else {
        lemma_decimal_digits(n / 10);
        let head = decimal_digits(n / 10);
        assert(d.drop_last() =~= head);
        assert forall|i: int| 0 <= i < d.len() implies is_digit(#[trigger] d[i]) by {
            if i < head.len() {
                assert(d[i] == head[i]);
            }
        }
    }
}

/// What is written is read back: the decimal text of every 64-bit integer reads as that
/// integer.
pub proof fn lemma_decimal_round_trip(i: i64)
    ensures
        parse_signed(decimal_bytes(i as int)) == Some(i as int),
{
    let s = decimal_bytes(i as int);
    if i < 0 {
        let digits = decimal_digits((-i) as nat);
        lemma_decimal_digits((-i) as nat);
        assert(s[0] == 45);
        assert(s.drop_first() =~= digits);
    } else {
        lemma_decimal_digits(i as nat);
        assert(is_digit(s[0]));
    }
}

} // verus!
