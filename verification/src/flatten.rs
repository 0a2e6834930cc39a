//! Flattening nested arrays.
//!
//! Some replies nest arrays more deeply than their content calls for. Flattening an array
//! replaces each element that is itself an array by that array's elements, and goes on in
//! those elements for as many levels as asked. In a map, the values that are arrays are
//! flattened.

use crate::collect::reversed;
use crate::error::{RedisError, RedisErrorKind};
use crate::reading::string_bytes;
use crate::value::{
    entry_views, lemma_entry_views, lemma_views_of,
    views_of, RedisKey, RedisMap, RedisValue, ValueView,
};
use vstd::prelude::*;

verus! {

/// A value flattened to `depth` levels.
pub open spec fn flat(v: ValueView, depth: nat) -> ValueView
    decreases depth, 1nat, 0nat,
{
    if depth == 0 {
        v
    } else {
        match v {
            ValueView::Array(items) => ValueView::Array(flat_items(items, depth, items.len())),
            ValueView::Mapping(entries) => ValueView::Mapping(flat_entries(entries, depth)),
            _ => v,
        }
    }
}

/// The entries of a map with each value that is an array flattened one level less.
pub open spec fn flat_entries(entries: Seq<(Seq<u8>, ValueView)>, depth: nat) -> Seq<
    (Seq<u8>, ValueView),
>
    decreases depth, 0nat, 0nat,
{
    Seq::new(
        entries.len(),
        |i: int|
            if depth == 0 {
                entries[i]
            } else {
                (entries[i].0, flat_entry(entries[i].1, (depth - 1) as nat))
            },
    )
}

/// The value of a map's entry, flattened if it is an array.
pub open spec fn flat_entry(v: ValueView, depth: nat) -> ValueView
    decreases depth, 2nat, 0nat,
{
    if v is Array {
        flat(v, depth)
    } else {
        v
    }
}

/// The first `n` elements of an array, flattened: an element that is an array gives way to
/// its elements, flattened one level less, and any other element stays.
pub open spec fn flat_items(items: Seq<ValueView>, depth: nat, n: nat) -> Seq<ValueView>
    decreases depth, 0nat, n,
{
    if n == 0 || n > items.len() || depth == 0 {
        Seq::empty()
    } else {
        flat_items(items, depth, (n - 1) as nat) + (match items[n - 1] {
            ValueView::Array(inner) => flat_each(inner, (depth - 1) as nat),
            other => seq![other],
        })
    }
}

/// Each of the values flattened to `depth` levels.
pub open spec fn flat_each(items: Seq<ValueView>, depth: nat) -> Seq<ValueView>
    decreases depth, 2nat, 0nat,
{
    Seq::new(items.len(), |i: int| flat(items[i], depth))
}

/// Flattens each of the values to `depth` levels and adds them to `out`.
fn push_each(inner: Vec<RedisValue>, depth: usize, out: &mut Vec<RedisValue>)
    ensures
        views_of(final(out)@) == views_of(old(out)@) + flat_each(views_of(inner@), depth as nat),
    decreases depth, 2nat, 0nat,
{
    let ghost start = views_of(out@);
    let ghost items = views_of(inner@);
    proof {
        lemma_views_of(inner@);
        lemma_views_of(out@);
    }
    let ghost count = inner.len() as int;
    let mut stack = reversed(inner);
    assert(start =~= start + flat_each(items, depth as nat).take(0));
    while stack.len() > 0
        invariant
            stack.len() <= count,
            count == items.len(),
            forall|i: int| 0 <= i < stack.len() ==> (#[trigger] stack[i])@ == items[count - 1 - i],
            views_of(out@) == start + flat_each(items, depth as nat).take(count - stack.len()),
        decreases stack.len(),
    {
        let ghost done = count - stack.len();
        let ghost before = out@;
        proof {
            lemma_views_of(before);
        }
        match stack.pop() {
            Some(v) => {
                let flattened = flatten_value(v, depth);
                out.push(flattened);
                proof {
                    lemma_views_of(out@);
                    assert(views_of(out@) =~= views_of(before).push(flat(items[done], depth as nat)));
                    assert(flat_each(items, depth as nat).take(done + 1) =~= flat_each(
                        items,
                        depth as nat,
                    ).take(done).push(flat(items[done], depth as nat)));
                }
            },
            None => {},
        }
    }
    assert(flat_each(items, depth as nat).take(count) =~= flat_each(items, depth as nat));
}

/// Flattens a value to `depth` levels.
pub fn flatten_value(value: RedisValue, depth: usize) -> (r: RedisValue)
    ensures
        r@ == flat(value@, depth as nat),
    decreases depth, 1nat, 0nat,
{
    if depth == 0 {
        return value;
    }
    match value {
        RedisValue::Array(values) => {
            let ghost items = views_of(values@);
            proof {
                lemma_views_of(values@);
            }
            let ghost count = values.len() as int;
            let mut stack = reversed(values);
            let mut out: Vec<RedisValue> = Vec::new();
            proof {
                lemma_views_of(out@);
                assert(views_of(out@) =~= flat_items(items, depth as nat, 0));
            }
            while stack.len() > 0
                invariant
                    depth > 0,
                    stack.len() <= count,
                    count == items.len(),
                    forall|i: int|
                        0 <= i < stack.len() ==> (#[trigger] stack[i])@ == items[count - 1 - i],
                    views_of(out@) == flat_items(
                        items,
                        depth as nat,
                        (count - stack.len()) as nat,
                    ),
                decreases stack.len(),
            {
                let ghost done = count - stack.len();
                let ghost before = out@;
                proof {
                    lemma_views_of(before);
                }
                match stack.pop() {
                    Some(RedisValue::Array(inner)) => {
                        push_each(inner, depth - 1, &mut out);
                    },
                    Some(other) => {
                        out.push(other);
                        proof {
                            lemma_views_of(out@);
                            assert(views_of(out@) =~= views_of(before) + seq![items[done]]);
                        }
                    },
                    None => {},
                }
            }
            assert(value@ == ValueView::Array(items));
            RedisValue::Array(out)
        },
        RedisValue::Mapping(map) => {
            let ghost held = map@;
            let entries = map.inner();
            let ghost all = entry_views(entries@);
            proof {
                lemma_entry_views(entries@);
            }
            let ghost count = entries.len() as int;
            let ghost target = flat_entries(all, depth as nat);
            let mut stack = reversed(entries);
            let mut out: Vec<(RedisKey, RedisValue)> = Vec::new();
            while stack.len() > 0
                invariant
                    depth > 0,
                    stack.len() <= count,
                    count == all.len(),
                    target == flat_entries(all, depth as nat),
                    target.len() == all.len(),
                    forall|i: int|
                        0 <= i < all.len() ==> (#[trigger] target[i]) == (
                            all[i].0,
                            flat_entry(all[i].1, (depth - 1) as nat),
                        ),
                    forall|i: int|
                        0 <= i < stack.len() ==> (#[trigger] stack[i]).0@ == all[count - 1 - i].0
                            && stack[i].1@ == all[count - 1 - i].1,
                    out.len() == count - stack.len(),
                    forall|i: int|
                        0 <= i < out.len() ==> (#[trigger] out[i]).0@ == target[i].0 && out[i].1@
                            == target[i].1,
                decreases stack.len(),
            {
                match stack.pop() {
                    Some((key, v)) => {
                        let v = if v.is_array() {
                            flatten_value(v, depth - 1)
                        } else {
                            v
                        };
                        out.push((key, v));
                    },
                    None => {},
                }
            }
            proof {
                lemma_entry_views(out@);
                assert(entry_views(out@) =~= target);
                assert forall|i: int, j: int| 0 <= i < j < target.len() implies (
                #[trigger] target[i]).0 != (#[trigger] target[j]).0 by {
                    assert(all[i].0 != all[j].0);
                }
                assert(value@ == ValueView::Mapping(held));
                assert(held == all);
            }
            RedisValue::Mapping(RedisMap::from_distinct(out))
        },
        _ => value,
    }
}

/// A type that a value can be turned into.
pub trait FromRedis: Sized {
    /// Turns the value into a value of this type, or says why it cannot.
    fn from_value(value: RedisValue) -> Result<Self, RedisError>;
}

impl FromRedis for RedisValue {
    fn from_value(value: RedisValue) -> (r: Result<Self, RedisError>)
        ensures
            r == Ok::<RedisValue, RedisError>(value),
    {
        Ok(value)
    }
}

impl RedisValue {
    /// Flattens nested arrays to the given depth.
    pub fn flatten_array_values(self, depth: usize) -> (r: RedisValue)
        ensures
            r@ == flat(self@, depth as nat),
    {
        flatten_value(self, depth)
    }

    /// Turns the value into any type that says how it is made from a value.
    pub fn convert<R: FromRedis>(self) -> (r: Result<R, RedisError>)
        ensures
            call_ensures(R::from_value, (self,), r),
    {
        R::from_value(self)
    }

    /// Turns the reply to a read from streams into a type of the caller's, after flattening
    /// it two levels.
    pub fn into_xread_response<R: FromRedis>(self) -> (r: Result<R, RedisError>)
        ensures
            exists|flattened: RedisValue|
                flattened@ == flat(self@, 2) && call_ensures(R::from_value, (flattened,), r),
    {
        self.flatten_array_values(2).convert()
    }

    /// Turns the entries of a stream into a type of the caller's, after flattening them one
    /// level.
    pub fn into_xread_value<R: FromRedis>(self) -> (r: Result<R, RedisError>)
        ensures
            exists|flattened: RedisValue|
                flattened@ == flat(self@, 1) && call_ensures(R::from_value, (flattened,), r),
    {
        self.flatten_array_values(1).convert()
    }
}

impl FromRedis for String {
    /// The text of a scalar or of the only element of an array; anything else is a `Parse`
    /// error.
    fn from_value(value: RedisValue) -> (r: Result<Self, RedisError>)
        ensures
            match value@.text() {
                Some(text) => r matches Ok(s) && string_bytes(Some(s)) == Some(text),
                None => r matches Err(e) && e.kind() == RedisErrorKind::Parse,
            },
    {
        match value.into_string() {
            Some(s) => Ok(s),
            None => Err(RedisError::new_parse("Could not convert to string.")),
        }
    }
}

impl FromRedis for i64 {
    /// The value read as an integer; anything that does not read as one is a `Parse` error.
    fn from_value(value: RedisValue) -> (r: Result<Self, RedisError>)
        ensures
            match value@.as_i64() {
                Some(i) => r == Ok::<i64, RedisError>(i),
                None => r matches Err(e) && e.kind() == RedisErrorKind::Parse,
            },
    {
        match value.as_i64() {
            Some(i) => Ok(i),
            None => Err(RedisError::new_parse("Could not convert to integer.")),
        }
    }
}

impl FromRedis for u64 {
    /// The value read as an unsigned integer; anything that does not read as one is a
    /// `Parse` error.
    fn from_value(value: RedisValue) -> (r: Result<Self, RedisError>)
        ensures
            match value@.as_unsigned(u64::MAX as nat) {
                Some(n) => r matches Ok(x) && x == n,
                None => r matches Err(e) && e.kind() == RedisErrorKind::Parse,
            },
    {
        match value.as_u64() {
            Some(i) => Ok(i),
            None => Err(RedisError::new_parse("Could not convert to integer.")),
        }
    }
}

impl FromRedis for usize {
    /// The value read as an unsigned integer; anything that does not read as one is a
    /// `Parse` error.
    fn from_value(value: RedisValue) -> (r: Result<Self, RedisError>)
        ensures
            match value@.as_unsigned(usize::MAX as nat) {
                Some(n) => r matches Ok(x) && x == n,
                None => r matches Err(e) && e.kind() == RedisErrorKind::Parse,
            },
    {
        match value.as_usize() {
            Some(i) => Ok(i),
            None => Err(RedisError::new_parse("Could not convert to integer.")),
        }
    }
}

impl FromRedis for bool {
    /// The value read as a boolean; anything that does not read as one is a `Parse` error.
    fn from_value(value: RedisValue) -> (r: Result<Self, RedisError>)
        ensures
            match value@.as_bool() {
                Some(b) => r == Ok::<bool, RedisError>(b),
                None => r matches Err(e) && e.kind() == RedisErrorKind::Parse,
            },
    {
        match value.as_bool() {
            Some(b) => Ok(b),
            None => Err(RedisError::new_parse("Could not convert to bool.")),
        }
    }
}

impl FromRedis for RedisKey {
    /// The key that a scalar makes; see [`RedisKey::from_value`].
    fn from_value(value: RedisValue) -> (r: Result<Self, RedisError>)
        ensures
            match value@.key_bytes() {
                Some(b) => r matches Ok(k) && k@ == b,
                None => r matches Err(e) && e.kind() == RedisErrorKind::InvalidArgument,
            },
    {
        RedisKey::from_value(value)
    }
}

impl FromRedis for Vec<RedisValue> {
    /// The value as an array; see [`RedisValue::into_array`].
    fn from_value(value: RedisValue) -> (r: Result<Self, RedisError>)
        ensures
            r matches Ok(v) && views_of(v@) == value@.array_items(),
    {
        Ok(value.into_array())
    }
}

/// The element of a reply to an automatic claim that holds the cursor, and the one that holds
/// the entries: the last two elements, after the third of exactly three was dropped.
pub open spec fn claim_parts(items: Seq<ValueView>) -> (ValueView, ValueView) {
    if items.len() == 3 {
        (items[0], items[1])
    } else {
        (items[items.len() - 2], items[items.len() - 1])
    }
}

impl RedisValue {
    /// Turns the reply to an automatic claim into its cursor and its entries, the entries in
    /// a type of the caller's, after flattening them one level. A third element, which newer
    /// servers add, is dropped. Anything but an array is a `Parse` error, and so is a cursor
    /// that is no text. The array must hold at least two elements.
    pub fn into_xautoclaim_values<R: FromRedis>(self) -> (r: Result<(String, R), RedisError>)
        requires
            self@ matches ValueView::Array(items) ==> items.len() >= 2,
        ensures
            match self@ {
                ValueView::Array(items) => match claim_parts(items).0.text() {
                    Some(text) => exists|flattened: RedisValue|
                        flattened@ == flat(claim_parts(items).1, 1) && (match r {
                            Ok((cursor, entries)) => string_bytes(Some(cursor)) == Some(text)
                                && call_ensures(
                                R::from_value,
                                (flattened,),
                                Ok::<R, RedisError>(entries),
                            ),
                            Err(e) => call_ensures(
                                R::from_value,
                                (flattened,),
                                Err::<R, RedisError>(e),
                            ),
                        }),
                    None => r matches Err(e) && e.kind() == RedisErrorKind::Parse,
                },
                _ => r matches Err(e) && e.kind() == RedisErrorKind::Parse,
            },
    {
        match self {
            RedisValue::Array(mut values) => {
                proof {
                    lemma_views_of(values@);
                }
                let ghost items = views_of(values@);
                if values.len() == 3 {
                    values.pop();
                }
                let entries = match values.pop() {
                    Some(v) => v,
                    None => RedisValue::Null,
                };
                let cursor_value = match values.pop() {
                    Some(v) => v,
                    None => RedisValue::Null,
                };
                assert(cursor_value@ == claim_parts(items).0);
                assert(entries@ == claim_parts(items).1);
                let cursor = match String::from_value(cursor_value) {
                    Ok(c) => c,
                    Err(e) => {
                        return Err(e);
                    },
                };
                let flattened = entries.flatten_array_values(1);
                match R::from_value(flattened) {
                    Ok(converted) => Ok((cursor, converted)),
                    Err(e) => Err(e),
                }
            },
            _ => Err(RedisError::new_parse("Expected array response.")),
        }
    }
}

} // verus!
