//! Keys and values as they travel in commands and replies.

use crate::buffer::{
    bytes_as_slice, bytes_clone, bytes_from_static, bytes_seq, bytes_split_to, str_clone,
    str_from_inner, str_from_static, str_inner, str_seq,
};
use crate::text::{is_float, is_float_text};
use bytes::Bytes;
use bytes_utils::Str;
use vstd::prelude::*;
use vstd::utf8::{encode_utf8, valid_utf8};

verus! {

/// The status text of a successful command.
pub const OK: &'static str = "OK";

/// The status text with which the server acknowledges a command inside a transaction.
pub const QUEUED: &'static str = "QUEUED";

/// The UTF-8 bytes of a piece of text.
pub open spec fn utf8(text: &str) -> Seq<u8> {
    encode_utf8(text@)
}

/// Whether two slices hold the same bytes.
pub fn bytes_eq(a: &[u8], b: &[u8]) -> (r: bool)
    ensures
        r == (a@ == b@),
{
    if a.len() != b.len() {
        return false;
    }
    let mut i: usize = 0;
    while i < a.len()
        invariant
            i <= a.len(),
            a.len() == b.len(),
            forall|j: int| 0 <= j < i ==> a@[j] == b@[j],
        decreases a.len() - i,
    {
        if a[i] != b[i] {
            return false;
        }
        i = i + 1;
    }
    assert(a@ =~= b@);
    true
}

/// The kind of a value, without its data.
#[derive(Clone, Copy, Debug, PartialEq, Eq, Structural)]
pub enum RedisValueKind {
    Boolean,
    Integer,
    Double,
    String,
    Bytes,
    Null,
    Queued,
    Mapping,
    Array,
}

impl RedisValueKind {
    /// The name under which the kind is shown.
    pub open spec fn name(self) -> Seq<char> {
        match self {
            RedisValueKind::Boolean => "Boolean"@,
            RedisValueKind::Integer => "Integer"@,
            RedisValueKind::Double => "Double"@,
            RedisValueKind::String => "String"@,
            RedisValueKind::Bytes => "Bytes"@,
            RedisValueKind::Null => "nil"@,
            RedisValueKind::Queued => "Queued"@,
            RedisValueKind::Mapping => "Map"@,
            RedisValueKind::Array => "Array"@,
        }
    }

    /// The kind's name as text.
    pub fn to_string(&self) -> (s: String)
        ensures
            s@ == self.name(),
    {
        let s: &str = match self {
            RedisValueKind::Boolean => "Boolean",
            RedisValueKind::Integer => "Integer",
            RedisValueKind::Double => "Double",
            RedisValueKind::String => "String",
            RedisValueKind::Bytes => "Bytes",
            RedisValueKind::Null => "nil",
            RedisValueKind::Queued => "Queued",
            RedisValueKind::Mapping => "Map",
            RedisValueKind::Array => "Array",
        };
        s.to_owned()
    }
}

/// A key.
#[derive(Debug, Eq, PartialOrd, Ord, Hash)]
pub struct RedisKey {
    key: Bytes,
}

impl View for RedisKey {
    type V = Seq<u8>;

    /// The bytes of the key.
    closed spec fn view(&self) -> Seq<u8> {
        bytes_seq(self.key)
    }
}

impl PartialEq for RedisKey {
    fn eq(&self, other: &Self) -> (r: bool) {
        bytes_eq(bytes_as_slice(&self.key), bytes_as_slice(&other.key))
    }
}

impl vstd::std_specs::cmp::PartialEqSpecImpl for RedisKey {
    open spec fn obeys_eq_spec() -> bool {
        true
    }

    open spec fn eq_spec(&self, other: &Self) -> bool {
        self@ == other@
    }
}

impl Clone for RedisKey {
    fn clone(&self) -> (r: Self)
        ensures
            r@ == self@,
    {
        RedisKey { key: bytes_clone(&self.key) }
    }
}

impl RedisKey {
    /// A key over static bytes, without copying them.
    pub fn from_static(b: &'static [u8]) -> (k: Self)
        ensures
            k@ == b@,
    {
        RedisKey { key: bytes_from_static(b) }
    }

    /// A key over static text, without copying it.
    pub fn from_static_str(b: &'static str) -> (k: Self)
        ensures
            k@ == utf8(b),
    {
        RedisKey { key: bytes_from_static(b.as_bytes()) }
    }

    /// A key that takes over a buffer.
    pub fn from_bytes(b: Bytes) -> (k: Self)
        ensures
            k@ == bytes_seq(b),
    {
        RedisKey { key: b }
    }

    /// The key as bytes.
    pub fn as_bytes(&self) -> (b: &[u8])
        ensures
            b@ == self@,
    {
        bytes_as_slice(&self.key)
    }

    /// The buffer that holds the key.
    pub fn inner(&self) -> (b: &Bytes)
        ensures
            bytes_seq(*b) == self@,
    {
        &self.key
    }

    /// Gives up the buffer that holds the key.
    pub fn into_bytes(self) -> (b: Bytes)
        ensures
            bytes_seq(b) == self@,
    {
        self.key
    }

    /// The key as shared text, if it is valid UTF-8.
    pub fn as_bytes_str(&self) -> (s: Option<Str>)
        ensures
            s is Some <==> valid_utf8(self@),
            s matches Some(t) ==> str_seq(t) == self@,
    {
        match str_from_inner(bytes_clone(&self.key)) {
            Ok(s) => Some(s),
            Err(_) => None,
        }
    }

    /// Empties the key and returns the bytes it held.
    pub fn take(&mut self) -> (b: Bytes)
        ensures
            bytes_seq(b) == old(self)@,
            final(self)@ == Seq::<u8>::empty(),
    {
        let n: usize = bytes_as_slice(&self.key).len();
        let out = bytes_split_to(&mut self.key, n);
        assert(bytes_seq(out) =~= old(self)@);
        assert(self@ =~= Seq::<u8>::empty());
        out
    }
}

/// A double-precision number, held as its IEEE 754 bit pattern together with its decimal text.
///
/// Arithmetic on such numbers is left to the caller; the library only compares bit patterns
/// and passes the text on.
#[derive(Debug)]
pub struct DoubleValue {
    bits: u64,
    text: Str,
}

/// What a [`DoubleValue`] stands for.
pub struct DoubleView {
    pub bits: u64,
    pub text: Seq<u8>,
}

impl View for DoubleValue {
    type V = DoubleView;

    closed spec fn view(&self) -> DoubleView {
        DoubleView { bits: self.bits, text: str_seq(self.text) }
    }
}

impl Clone for DoubleValue {
    fn clone(&self) -> (r: Self)
        ensures
            r@ == self@,
    {
        DoubleValue { bits: self.bits, text: str_clone(&self.text) }
    }
}

impl DoubleValue {
    /// A number from its bit pattern and the text that shows it.
    pub fn new(bits: u64, text: Str) -> (d: Self)
        ensures
            d@ == (DoubleView { bits, text: str_seq(text) }),
    {
        DoubleValue { bits, text }
    }

    /// The IEEE 754 bit pattern.
    pub fn bits(&self) -> (b: u64)
        ensures
            b == self@.bits,
    {
        self.bits
    }

    /// Gives up the decimal text.
    pub fn into_text(self) -> (t: Str)
        ensures
            str_seq(t) == self@.text,
    {
        self.text
    }

    /// The decimal text.
    pub fn text(&self) -> (t: &Str)
        ensures
            str_seq(*t) == self@.text,
    {
        &self.text
    }
}

/// A value sent in a command or received in a reply.
#[derive(Debug)]
pub enum RedisValue {
    /// A boolean.
    Boolean(bool),
    /// An integer.
    Integer(i64),
    /// A double-precision number.
    Double(DoubleValue),
    /// Text.
    String(Str),
    /// Raw bytes.
    Bytes(Bytes),
    /// The absence of a value.
    Null,
    /// The acknowledgement of a command queued inside a transaction.
    Queued,
    /// Key and value pairs.
    Mapping(RedisMap),
    /// An ordered list of values.
    Array(Vec<RedisValue>),
}

/// Key and value pairs in which no key occurs twice.
#[derive(Debug)]
pub struct RedisMap {
    pub(crate) entries: Vec<(RedisKey, RedisValue)>,
}

/// What a [`RedisValue`] stands for: the same shape, with every buffer replaced by its bytes.
pub enum ValueView {
    Boolean(bool),
    Integer(i64),
    Double(DoubleView),
    String(Seq<u8>),
    Bytes(Seq<u8>),
    Null,
    Queued,
    Mapping(Seq<(Seq<u8>, ValueView)>),
    Array(Seq<ValueView>),
}

/// The views of a run of values, in order.
pub open spec fn views_of(values: Seq<RedisValue>) -> Seq<ValueView>
    decreases values,
{
    Seq::new(
        values.len(),
        |i: int|
            if 0 <= i < values.len() {
                values[i].view()
            } else {
                ValueView::Null
            },
    )
}

/// The views of a run of entries, in order.
pub open spec fn entry_views(entries: Seq<(RedisKey, RedisValue)>) -> Seq<(Seq<u8>, ValueView)>
    decreases entries,
{
    Seq::new(
        entries.len(),
        |i: int|
            if 0 <= i < entries.len() {
                (entries[i].0@, entries[i].1.view())
            } else {
                (Seq::empty(), ValueView::Null)
            },
    )
}

/// `views_of` keeps the length and views each element in place.
pub proof fn lemma_views_of(values: Seq<RedisValue>)
    ensures
        views_of(values).len() == values.len(),
        forall|i: int| 0 <= i < values.len() ==> (#[trigger] views_of(values)[i]) == values[i]@,
{
}

/// `entry_views` keeps the length and views each entry in place.
pub proof fn lemma_entry_views(entries: Seq<(RedisKey, RedisValue)>)
    ensures
        entry_views(entries).len() == entries.len(),
        forall|i: int|
            0 <= i < entries.len() ==> (#[trigger] entry_views(entries)[i]) == (
                entries[i].0@,
                entries[i].1@,
            ),
{
}

/// No key occurs twice among the entries.
pub open spec fn distinct_keys(entries: Seq<(Seq<u8>, ValueView)>) -> bool {
    forall|i: int, j: int|
        0 <= i < j < entries.len() ==> (#[trigger] entries[i]).0 != (#[trigger] entries[j]).0
}

impl View for RedisMap {
    type V = Seq<(Seq<u8>, ValueView)>;

    /// The entries, in the order in which their keys were first inserted.
    closed spec fn view(&self) -> Seq<(Seq<u8>, ValueView)>
        decreases self,
    {
        entry_views(self.entries@)
    }
}

impl View for RedisValue {
    type V = ValueView;

    open spec fn view(&self) -> ValueView
        decreases self,
    {
        match self {
            RedisValue::Boolean(b) => ValueView::Boolean(*b),
            RedisValue::Integer(i) => ValueView::Integer(*i),
            RedisValue::Double(d) => ValueView::Double(d@),
            RedisValue::String(s) => ValueView::String(str_seq(*s)),
            RedisValue::Bytes(b) => ValueView::Bytes(bytes_seq(*b)),
            RedisValue::Null => ValueView::Null,
            RedisValue::Queued => ValueView::Queued,
            RedisValue::Mapping(m) => ValueView::Mapping(m@),
            RedisValue::Array(v) => ValueView::Array(views_of(v@)),
        }
    }
}

impl ValueView {
    /// The kind of the value.
    pub open spec fn kind(self) -> RedisValueKind {
        match self {
            ValueView::Boolean(_) => RedisValueKind::Boolean,
            ValueView::Integer(_) => RedisValueKind::Integer,
            ValueView::Double(_) => RedisValueKind::Double,
            ValueView::String(_) => RedisValueKind::String,
            ValueView::Bytes(_) => RedisValueKind::Bytes,
            ValueView::Null => RedisValueKind::Null,
            ValueView::Queued => RedisValueKind::Queued,
            ValueView::Mapping(_) => RedisValueKind::Mapping,
            ValueView::Array(_) => RedisValueKind::Array,
        }
    }
}

impl RedisValue {
    /// A `Bytes` value over static bytes, without copying them.
    pub fn from_static(b: &'static [u8]) -> (v: Self)
        ensures
            v@ == ValueView::Bytes(b@),
    {
        RedisValue::Bytes(bytes_from_static(b))
    }

    /// A `String` value over static text, without copying it.
    pub fn from_static_str(s: &'static str) -> (v: Self)
        ensures
            v@ == ValueView::String(utf8(s)),
    {
        RedisValue::String(str_from_static(s))
    }

    /// The `OK` status.
    pub fn new_ok() -> (v: Self)
        ensures
            v@ == ValueView::String(utf8(OK)),
    {
        Self::from_static_str(OK)
    }

    /// Whether the value is the `OK` status.
    pub fn is_ok(&self) -> (r: bool)
        ensures
            r == (self@ == ValueView::String(utf8(OK))),
    {
        match self {
            RedisValue::String(s) => bytes_eq(bytes_as_slice(str_inner(s)), OK.as_bytes()),
            _ => false,
        }
    }

    /// The kind of the value, without its data.
    pub fn kind(&self) -> (k: RedisValueKind)
        ensures
            k == self@.kind(),
    {
        match self {
            RedisValue::Boolean(_) => RedisValueKind::Boolean,
            RedisValue::Integer(_) => RedisValueKind::Integer,
            RedisValue::Double(_) => RedisValueKind::Double,
            RedisValue::String(_) => RedisValueKind::String,
            RedisValue::Bytes(_) => RedisValueKind::Bytes,
            RedisValue::Null => RedisValueKind::Null,
            RedisValue::Queued => RedisValueKind::Queued,
            RedisValue::Mapping(_) => RedisValueKind::Mapping,
            RedisValue::Array(_) => RedisValueKind::Array,
        }
    }

    /// Whether the value is `Null`.
    pub fn is_null(&self) -> (r: bool)
        ensures
            r == (self@ is Null),
    {
        matches!(self, RedisValue::Null)
    }

    /// Whether the value is an integer.
    pub fn is_integer(&self) -> (r: bool)
        ensures
            r == (self@ is Integer),
    {
        matches!(self, RedisValue::Integer(_))
    }

    /// Whether the value is text.
    pub fn is_string(&self) -> (r: bool)
        ensures
            r == (self@ is String),
    {
        matches!(self, RedisValue::String(_))
    }

    /// Whether the value is raw bytes.
    pub fn is_bytes(&self) -> (r: bool)
        ensures
            r == (self@ is Bytes),
    {
        matches!(self, RedisValue::Bytes(_))
    }

    /// Whether the value is a number of double precision or text that spells one.
    pub fn is_double(&self) -> (r: bool)
        ensures
            r == (match self@ {
                ValueView::Double(_) => true,
                ValueView::String(s) => is_float_text(s),
                _ => false,
            }),
    {
        match self {
            RedisValue::Double(_) => true,
            RedisValue::String(s) => is_float(bytes_as_slice(str_inner(s))),
            _ => false,
        }
    }

    /// Whether the value is the acknowledgement of a queued command.
    pub fn is_queued(&self) -> (r: bool)
        ensures
            r == (self@ is Queued),
    {
        matches!(self, RedisValue::Queued)
    }

    /// Whether the value is an array or a map.
    pub fn is_aggregate_type(&self) -> (r: bool)
        ensures
            r == (self@ is Array || self@ is Mapping),
    {
        matches!(self, RedisValue::Array(_) | RedisValue::Mapping(_))
    }

    /// Whether the value is a map.
    pub fn is_map(&self) -> (r: bool)
        ensures
            r == (self@ is Mapping),
    {
        matches!(self, RedisValue::Mapping(_))
    }

    /// Whether the value is an array.
    pub fn is_array(&self) -> (r: bool)
        ensures
            r == (self@ is Array),
    {
        matches!(self, RedisValue::Array(_))
    }

    /// The number of elements, if the value is an array.
    pub fn array_len(&self) -> (n: Option<usize>)
        ensures
            n == (match self@ {
                ValueView::Array(items) => Some(items.len() as usize),
                _ => None,
            }),
    {
        match self {
            RedisValue::Array(a) => {
                proof {
                    lemma_views_of(a@);
                }
                Some(a.len())
            },
            _ => None,
        }
    }

    /// Whether the value is an array of exactly one element.
    pub fn is_single_element_vec(&self) -> (r: bool)
        ensures
            r == (self@ matches ValueView::Array(items) && items.len() == 1),
    {
        match self {
            RedisValue::Array(d) => {
                proof {
                    lemma_views_of(d@);
                }
                d.len() == 1
            },
            _ => false,
        }
    }

    /// Leaves `Null` in place of the value and returns what was there.
    pub fn take(&mut self) -> (v: RedisValue)
        ensures
            v == *old(self),
            *final(self) == RedisValue::Null,
    {
        let mut out = RedisValue::Null;
        std::mem::swap(self, &mut out);
        out
    }

    /// Whether the value can be fed to a hasher: everything but a map.
    pub fn can_hash(&self) -> (r: bool)
        ensures
            r == !(self@ is Mapping),
    {
        !matches!(self, RedisValue::Mapping(_))
    }
}

/// Where `key` stands among the entries, if it occurs.
pub open spec fn key_index(entries: Seq<(Seq<u8>, ValueView)>, key: Seq<u8>) -> Option<int> {
    if exists|i: int| 0 <= i < entries.len() && (#[trigger] entries[i]).0 == key {
        Some(choose|i: int| 0 <= i < entries.len() && (#[trigger] entries[i]).0 == key)
    } else {
        None
    }
}

/// The value stored under `key`, if the key occurs.
pub open spec fn lookup(entries: Seq<(Seq<u8>, ValueView)>, key: Seq<u8>) -> Option<ValueView> {
    match key_index(entries, key) {
        Some(i) => Some(entries[i].1),
        None => None,
    }
}

/// The entries after `value` is stored under `key`: in place of the old value where the key
/// occurs, at the end where it does not.
pub open spec fn insert_entry(
    entries: Seq<(Seq<u8>, ValueView)>,
    key: Seq<u8>,
    value: ValueView,
) -> Seq<(Seq<u8>, ValueView)> {
    match key_index(entries, key) {
        Some(i) => entries.update(i, (key, value)),
        None => entries.push((key, value)),
    }
}

impl RedisMap {
    #[verifier::type_invariant]
    spec fn keys_are_distinct(self) -> bool {
        distinct_keys(entry_views(self.entries@))
    }

    /// An empty map.
    pub fn new() -> (m: Self)
        ensures
            m@ == Seq::<(Seq<u8>, ValueView)>::empty(),
    {
        let m = RedisMap { entries: Vec::new() };
        assert(m@ =~= Seq::empty());
        m
    }

    /// A map of entries among which no key occurs twice.
    pub(crate) fn from_distinct(entries: Vec<(RedisKey, RedisValue)>) -> (m: Self)
        requires
            distinct_keys(entry_views(entries@)),
        ensures
            m@ == entry_views(entries@),
    {
        RedisMap { entries }
    }

    /// The number of entries.
    pub fn len(&self) -> (n: usize)
        ensures
            n == self@.len(),
    {
        self.entries.len()
    }

    /// Leaves an empty map in place and returns the map that was there.
    pub fn take(&mut self) -> (m: Self)
        ensures
            m@ == old(self)@,
            final(self)@ == Seq::<(Seq<u8>, ValueView)>::empty(),
    {
        proof {
            use_type_invariant(&*self);
        }
        let mut entries: Vec<(RedisKey, RedisValue)> = Vec::new();
        std::mem::swap(&mut self.entries, &mut entries);
        assert(self@ =~= Seq::empty());
        RedisMap { entries }
    }

    /// Gives up the entries. No key occurs twice among them.
    pub fn inner(self) -> (entries: Vec<(RedisKey, RedisValue)>)
        ensures
            entry_views(entries@) == self@,
            distinct_keys(self@),
    {
        proof {
            use_type_invariant(&self);
        }
        self.entries
    }

    /// The entries. No key occurs twice among them.
    pub(crate) fn entries(&self) -> (entries: &Vec<(RedisKey, RedisValue)>)
        ensures
            *entries == self.entries,
            entry_views(entries@) == self@,
            distinct_keys(self@),
    {
        proof {
            use_type_invariant(self);
        }
        &self.entries
    }

    /// Where `key` stands among the entries.
    pub(crate) fn position(&self, key: &RedisKey) -> (r: Option<usize>)
        ensures
            match r {
                Some(i) => i < self.entries.len() && self.entries[i as int].0@ == key@
                    && key_index(self@, key@) == Some(i as int),
                None => key_index(self@, key@) is None,
            },
    {
        proof {
            use_type_invariant(self);
            lemma_entry_views(self.entries@);
        }
        let mut i: usize = 0;
        while i < self.entries.len()
            invariant
                i <= self.entries.len(),
                self@.len() == self.entries.len(),
                forall|j: int|
                    0 <= j < self.entries.len() ==> (#[trigger] self@[j]).0 == self.entries[j].0@,
                distinct_keys(self@),
                forall|j: int| 0 <= j < i ==> (#[trigger] self@[j]).0 != key@,
            decreases self.entries.len() - i,
        {
            if bytes_eq(self.entries[i].0.as_bytes(), key.as_bytes()) {
                assert(self@[i as int].0 == key@);
                let ghost found = choose|j: int|
                    0 <= j < self@.len() && (#[trigger] self@[j]).0 == key@;
                assert(found == i) by {
                    if found < i {
                        assert(self@[found].0 != self@[i as int].0);
                    } else if i < found {
                        assert(self@[i as int].0 != self@[found].0);
                    }
                }
                return Some(i);
            }
            i = i + 1;
        }
        None
    }

    /// The value stored under `key`.
    pub fn get(&self, key: &RedisKey) -> (r: Option<&RedisValue>)
        ensures
            match r {
                Some(v) => lookup(self@, key@) == Some(v@),
                None => lookup(self@, key@) is None,
            },
    {
        proof {
            lemma_entry_views(self.entries@);
        }
        match self.position(key) {
            Some(i) => Some(&self.entries[i].1),
            None => None,
        }
    }

    /// Stores `value` under `key`. A key that is already there keeps its place and has its
    /// value replaced, which is returned; a new key goes to the end.
    pub fn insert(&mut self, key: RedisKey, value: RedisValue) -> (r: Option<RedisValue>)
        ensures
            match key_index(old(self)@, key@) {
                Some(i) => r matches Some(v) && v@ == old(self)@[i].1 && final(self)@ == old(
                    self,
                )@.update(i, (key@, value@)),
                None => r is None && final(self)@ == old(self)@.push((key@, value@)),
            },
    {
        proof {
            use_type_invariant(&*self);
            lemma_entry_views(self.entries@);
        }
        let ghost before = self.entries@;
        match self.position(&key) {
            Some(i) => {
                let mut slot = (key, value);
                let mut entries: Vec<(RedisKey, RedisValue)> = Vec::new();
                std::mem::swap(&mut self.entries, &mut entries);
                let old_value = replace_entry(&mut entries, i, slot);
                proof {
                    lemma_entry_views(entries@);
                    assert(entry_views(entries@) =~= entry_views(before).update(
                        i as int,
                        (key@, value@),
                    ));
                }
                self.entries = entries;
                Some(old_value)
            },
            None => {
                let mut entries: Vec<(RedisKey, RedisValue)> = Vec::new();
                std::mem::swap(&mut self.entries, &mut entries);
                entries.push((key, value));
                proof {
                    lemma_entry_views(entries@);
                    assert(entry_views(entries@) =~= entry_views(before).push((key@, value@)));
                }
                self.entries = entries;
                None
            },
        }
    }
}

/// Puts `entry` at index `i` and returns the value that stood there.
fn replace_entry(
    entries: &mut Vec<(RedisKey, RedisValue)>,
    i: usize,
    entry: (RedisKey, RedisValue),
) -> (r: RedisValue)
    requires
        i < old(entries).len(),
    ensures
        final(entries)@ == old(entries)@.update(i as int, entry),
        r == old(entries)[i as int].1,
{
    let mut slot = entry;
    std::mem::swap(&mut entries[i], &mut slot);
    slot.1
}

/// Copies a run of values.
fn clone_values(values: &Vec<RedisValue>) -> (r: Vec<RedisValue>)
    ensures
        views_of(r@) == views_of(values@),
    decreases values,
{
    let mut out: Vec<RedisValue> = Vec::new();
    let mut i: usize = 0;
    while i < values.len()
        invariant
            i <= values.len(),
            out.len() == i,
            forall|j: int| 0 <= j < i ==> out[j]@ == values[j]@,
        decreases values.len() - i,
    {
        out.push(values[i].clone());
        i = i + 1;
    }
    proof {
        lemma_views_of(out@);
        lemma_views_of(values@);
        assert(views_of(out@) =~= views_of(values@));
    }
    out
}

/// Copies a run of entries.
fn clone_entries(entries: &Vec<(RedisKey, RedisValue)>) -> (r: Vec<(RedisKey, RedisValue)>)
    ensures
        entry_views(r@) == entry_views(entries@),
    decreases entries,
{
    let mut out: Vec<(RedisKey, RedisValue)> = Vec::new();
    let mut i: usize = 0;
    while i < entries.len()
        invariant
            i <= entries.len(),
            out.len() == i,
            forall|j: int|
                0 <= j < i ==> out[j].0@ == entries[j].0@ && out[j].1@ == entries[j].1@,
        decreases entries.len() - i,
    {
        out.push((entries[i].0.clone(), entries[i].1.clone()));
        i = i + 1;
    }
    proof {
        lemma_entry_views(out@);
        lemma_entry_views(entries@);
        assert(entry_views(out@) =~= entry_views(entries@));
    }
    out
}

impl Clone for RedisMap {
    fn clone(&self) -> (r: Self)
        ensures
            r@ == self@,
        decreases self,
    {
        proof {
            use_type_invariant(self);
        }
        RedisMap { entries: clone_entries(&self.entries) }
    }
}

impl Clone for RedisValue {
    fn clone(&self) -> (r: Self)
        ensures
            r@ == self@,
        decreases self,
    {
        match self {
            RedisValue::Boolean(b) => RedisValue::Boolean(*b),
            RedisValue::Integer(i) => RedisValue::Integer(*i),
            RedisValue::Double(d) => RedisValue::Double(d.clone()),
            RedisValue::String(s) => RedisValue::String(str_clone(s)),
            RedisValue::Bytes(b) => RedisValue::Bytes(bytes_clone(b)),
            RedisValue::Null => RedisValue::Null,
            RedisValue::Queued => RedisValue::Queued,
            RedisValue::Mapping(m) => RedisValue::Mapping(m.clone()),
            RedisValue::Array(v) => RedisValue::Array(clone_values(v)),
        }
    }
}

/// A key that occurs among entries with distinct keys occurs at one index only.
pub proof fn lemma_key_index(entries: Seq<(Seq<u8>, ValueView)>, key: Seq<u8>, i: int)
    requires
        distinct_keys(entries),
        0 <= i < entries.len(),
        entries[i].0 == key,
    ensures
        key_index(entries, key) == Some(i),
{
    let found = choose|j: int| 0 <= j < entries.len() && (#[trigger] entries[j]).0 == key;
    if found < i {
        assert(entries[found].0 != entries[i].0);
    } else if i < found {
        assert(entries[i].0 != entries[found].0);
    }
}

/// What is stored under a key is found under that key, and nothing else changes: after
/// `value` was stored under `key`, the keys are still distinct, `key` leads to `value`, and
/// every other key leads to what it led to before.
pub proof fn lemma_stored_is_found(
    entries: Seq<(Seq<u8>, ValueView)>,
    key: Seq<u8>,
    value: ValueView,
    other: Seq<u8>,
)
    requires
        distinct_keys(entries),
    ensures
        distinct_keys(insert_entry(entries, key, value)),
        lookup(insert_entry(entries, key, value), key) == Some(value),
        other != key ==> lookup(insert_entry(entries, key, value), other) == lookup(entries, other),
{
    let after = insert_entry(entries, key, value);
    match key_index(entries, key) {
        Some(i) => {
            assert(0 <= i < entries.len() && entries[i].0 == key);
            assert forall|a: int, b: int| 0 <= a < b < after.len() implies (#[trigger] after[a]).0
                != (#[trigger] after[b]).0 by {
                assert(entries[a].0 != entries[b].0);
            }
            lemma_key_index(after, key, i);
            if other != key {
                if key_index(entries, other) is Some {
                    let j = key_index(entries, other).unwrap();
                    assert(entries[j].0 == other);
                    lemma_key_index(after, other, j);
                } else {
                    if key_index(after, other) is Some {
                        let j = key_index(after, other).unwrap();
                        assert(after[j].0 == other);
                        assert(entries[j].0 == other);
                    }
                }
            }
        },
        None => {
            assert forall|a: int, b: int| 0 <= a < b < after.len() implies (#[trigger] after[a]).0
                != (#[trigger] after[b]).0 by {
                if b == entries.len() {
                    assert(entries[a].0 != key);
                } else {
                    assert(entries[a].0 != entries[b].0);
                }
            }
            lemma_key_index(after, key, entries.len() as int);
            if other != key {
                if key_index(entries, other) is Some {
                    let j = key_index(entries, other).unwrap();
                    assert(entries[j].0 == other);
                    lemma_key_index(after, other, j);
                } else {
                    if key_index(after, other) is Some {
                        let j = key_index(after, other).unwrap();
                        assert(after[j].0 == other);
                        assert(entries[j].0 == other);
                    }
                }
            }
        },
    }
}

} // verus!
