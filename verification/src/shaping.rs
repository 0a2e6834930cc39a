//! Values turned into keys, arrays and maps.

use crate::buffer::{bytes_from_static, str_from_string, str_into_inner};
use crate::error::{RedisError, RedisErrorKind};
use crate::text::{decimal_bytes, i64_to_string};
use crate::value::{
    entry_views, insert_entry, lemma_entry_views, lemma_views_of, utf8, views_of, RedisKey,
    RedisMap, RedisValue, ValueView, QUEUED,
};
use vstd::prelude::*;

verus! {

impl ValueView {
    /// The bytes of the key that a scalar value makes: text and bytes as they are, numbers in
    /// decimal, booleans as `true` or `false`, the queued acknowledgement as `QUEUED`. Null,
    /// maps and arrays make no key.
    pub open spec fn key_bytes(self) -> Option<Seq<u8>> {
        match self {
            ValueView::String(s) => Some(s),
            ValueView::Integer(i) => Some(decimal_bytes(i as int)),
            ValueView::Double(d) => Some(d.text),
            ValueView::Bytes(b) => Some(b),
            ValueView::Boolean(b) => Some(
                if b {
                    utf8("true")
                } else {
                    utf8("false")
                },
            ),
            ValueView::Queued => Some(utf8(QUEUED)),
            _ => None,
        }
    }
}

impl RedisKey {
    /// The key that a scalar value makes. Null, maps and arrays are refused as an
    /// `InvalidArgument`.
    pub fn from_value(value: RedisValue) -> (r: Result<RedisKey, RedisError>)
        ensures
            match value@.key_bytes() {
                Some(b) => r matches Ok(k) && k@ == b,
                None => r matches Err(e) && e.kind() == RedisErrorKind::InvalidArgument,
            },
    {
        let key = match value {
            RedisValue::String(s) => str_into_inner(s),
            RedisValue::Integer(i) => str_into_inner(str_from_string(i64_to_string(i))),
            RedisValue::Double(d) => str_into_inner(d.into_text()),
            RedisValue::Bytes(b) => b,
            RedisValue::Boolean(b) => if b {
                bytes_from_static("true".as_bytes())
            } else {
                bytes_from_static("false".as_bytes())
            },
            RedisValue::Queued => bytes_from_static(QUEUED.as_bytes()),
            _ => {
                return Err(
                    RedisError::new(RedisErrorKind::InvalidArgument, "Cannot convert to key."),
                );
            },
        };
        Ok(RedisKey::from_bytes(key))
    }
}


/// Every element at an even index makes a key.
pub open spec fn keys_convertible(items: Seq<ValueView>) -> bool {
    forall|k: int| 0 <= k < items.len() && k % 2 == 0 ==> (#[trigger] items[k]).key_bytes() is Some
}

/// The entries made of an array that alternates keys and values. The pairs are stored from
/// the last to the first, so that of two pairs with one key the earlier one stays.
pub open spec fn pair_entries(items: Seq<ValueView>) -> Seq<(Seq<u8>, ValueView)>
    decreases items.len(),
{
    if items.len() < 2 {
        Seq::empty()
    } else {
        insert_entry(pair_entries(items.skip(2)), items[0].key_bytes().unwrap(), items[1])
    }
}

/// The array that lists each key, as bytes, followed by its value.
pub open spec fn flatten_entries(entries: Seq<(Seq<u8>, ValueView)>) -> Seq<ValueView> {
    Seq::new(
        2 * entries.len(),
        |i: int|
            if i % 2 == 0 {
                ValueView::Bytes(entries[i / 2].0)
            } else {
                entries[i / 2].1
            },
    )
}

impl ValueView {
    /// The elements of an array, the keys and values of a map in turn, or the value alone.
    pub open spec fn array_items(self) -> Seq<ValueView> {
        match self {
            ValueView::Array(items) => items,
            ValueView::Mapping(m) => flatten_entries(m),
            v => seq![v],
        }
    }

    /// Whether the value is a map, or an array of even length in which no element at an even
    /// index is an array or a map.
    pub open spec fn is_maybe_map(self) -> bool {
        match self {
            ValueView::Mapping(_) => true,
            ValueView::Array(items) => items.len() % 2 == 0 && forall|k: int|
                0 <= k < items.len() && k % 2 == 0 ==> !((#[trigger] items[k]) is Array
                    || items[k] is Mapping),
            _ => false,
        }
    }
}

/// Lists each key of a run of entries, as bytes, followed by its value.
fn flatten(entries: Vec<(RedisKey, RedisValue)>) -> (out: Vec<RedisValue>)
    ensures
        views_of(out@) == flatten_entries(entry_views(entries@)),
{
    let ghost all = entry_views(entries@);
    proof {
        lemma_entry_views(entries@);
    }
    let mut rest = entries;
    let mut reversed: Vec<RedisValue> = Vec::new();
    while rest.len() > 0
        invariant
            rest.len() <= all.len(),
            entry_views(rest@) == all.take(rest.len() as int),
            reversed.len() == 2 * (all.len() - rest.len()),
            forall|i: int|
                0 <= i < reversed.len() ==> (#[trigger] reversed[i])@ == flatten_entries(all)[2
                    * all.len() - 1 - i],
        decreases rest.len(),
    {
        let ghost before = rest@;
        proof {
            lemma_entry_views(rest@);
        }
        match rest.pop() {
            Some((key, value)) => {
                proof {
                    lemma_entry_views(rest@);
                    assert(entry_views(rest@) =~= all.take(rest.len() as int));
                    assert(entry_views(before)[before.len() - 1] == (key@, value@));
                    assert(all.take(before.len() as int)[before.len() - 1] == all[before.len()
                        - 1]);
                }
                reversed.push(value);
                reversed.push(RedisValue::Bytes(key.into_bytes()));
            },
            None => {},
        }
    }
    let mut out: Vec<RedisValue> = Vec::new();
    let ghost total = reversed@;
    while reversed.len() > 0
        invariant
            reversed.len() <= total.len(),
            reversed@ == total.take(reversed.len() as int),
            out.len() == total.len() - reversed.len(),
            forall|i: int| 0 <= i < out.len() ==> (#[trigger] out[i]) == total[total.len() - 1 - i],
        decreases reversed.len(),
    {
        match reversed.pop() {
            Some(v) => {
                out.push(v);
            },
            None => {},
        }
        assert(reversed@ =~= total.take(reversed.len() as int));
    }
    proof {
        lemma_views_of(out@);
        assert(views_of(out@) =~= flatten_entries(all));
    }
    out
}

impl RedisValue {
    /// Whether the value is a map or an array that may stand for one.
    pub fn is_maybe_map(&self) -> (r: bool)
        ensures
            r == self@.is_maybe_map(),
    {
        match self {
            RedisValue::Mapping(_) => true,
            RedisValue::Array(arr) => {
                proof {
                    lemma_views_of(arr@);
                }
                if arr.len() % 2 != 0 {
                    return false;
                }
                let mut i: usize = 0;
                while i < arr.len()
                    invariant
                        i <= arr.len(),
                        i % 2 == 0,
                        arr.len() % 2 == 0,
                        self@ == ValueView::Array(views_of(arr@)),
                        views_of(arr@).len() == arr.len(),
                        forall|k: int|
                            0 <= k < arr.len() ==> (#[trigger] views_of(arr@)[k]) == arr[k]@,
                        forall|k: int|
                            0 <= k < i && k % 2 == 0 ==> !((#[trigger] views_of(arr@)[k]) is Array
                                || views_of(arr@)[k] is Mapping),
                    decreases arr.len() - i,
                {
                    if arr[i].is_aggregate_type() {
                        assert(views_of(arr@)[i as int] is Array || views_of(arr@)[i as int]
                            is Mapping);
                        return false;
                    }
                    i = i + 2;
                }
                true
            },
            _ => false,
        }
    }

    /// The value as an array: the elements of an array, the keys and values of a map in turn,
    /// or the value alone.
    pub fn into_array(self) -> (out: Vec<RedisValue>)
        ensures
            views_of(out@) == self@.array_items(),
    {
        match self {
            RedisValue::Array(values) => values,
            RedisValue::Mapping(map) => {
                flatten(map.inner())
            },
            _ => {
                let ghost v = self@;
                let mut out: Vec<RedisValue> = Vec::new();
                out.push(self);
                proof {
                    lemma_views_of(out@);
                    assert(views_of(out@) =~= seq![v]);
                }
                out
            },
        }
    }

    /// The values that the value stands for when it is spread over the arguments of a
    /// command: nothing for `Null`, and otherwise what `into_array` gives.
    pub fn into_multiple_values(self) -> (out: Vec<RedisValue>)
        ensures
            views_of(out@) == (if self@ is Null {
                Seq::empty()
            } else {
                self@.array_items()
            }),
    {
        match self {
            RedisValue::Null => {
                let out: Vec<RedisValue> = Vec::new();
                proof {
                    lemma_views_of(out@);
                    assert(views_of(out@) =~= Seq::empty());
                }
                out
            },
            _ => self.into_array(),
        }
    }

    /// The last element of a non-empty array, or the value itself if it is no array.
    pub fn pop_or_take(self) -> (r: RedisValue)
        requires
            self@ matches ValueView::Array(items) ==> items.len() > 0,
        ensures
            r@ == (match self@ {
                ValueView::Array(items) => items.last(),
                v => v,
            }),
    {
        match self {
            RedisValue::Array(mut values) => {
                proof {
                    lemma_views_of(values@);
                }
                match values.pop() {
                    Some(v) => v,
                    None => RedisValue::Null,
                }
            },
            _ => self,
        }
    }

    /// The map that the value stands for: a map itself, or an array that alternates keys and
    /// values. An array of odd length and anything else is refused as `Unknown`, an element
    /// in a key's place that makes no key as an `InvalidArgument`.
    pub fn into_map(self) -> (r: Result<RedisMap, RedisError>)
        ensures
            match self@ {
                ValueView::Mapping(m) => r matches Ok(x) && x@ == m,
                ValueView::Array(items) => if items.len() % 2 != 0 {
                    r matches Err(e) && e.kind() == RedisErrorKind::Unknown
                } else if keys_convertible(items) {
                    r matches Ok(x) && x@ == pair_entries(items)
                } else {
                    r matches Err(e) && e.kind() == RedisErrorKind::InvalidArgument
                },
                _ => r matches Err(e) && e.kind() == RedisErrorKind::Unknown,
            },
    {
        match self {
            RedisValue::Mapping(map) => Ok(map),
            RedisValue::Array(mut values) => {
                let ghost items = views_of(values@);
                proof {
                    lemma_views_of(values@);
                }
                if values.len() % 2 != 0 {
                    return Err(
                        RedisError::new(
                            RedisErrorKind::Unknown,
                            "Expected an even number of elements.",
                        ),
                    );
                }
                let mut inner = RedisMap::new();
                assert(items.skip(items.len() as int) =~= Seq::empty());
                while values.len() >= 2
                    invariant
                        self@ == ValueView::Array(items),
                        items.len() % 2 == 0,
                        values.len() % 2 == 0,
                        values.len() <= items.len(),
                        views_of(values@) == items.take(values.len() as int),
                        inner@ == pair_entries(items.skip(values.len() as int)),
                        forall|k: int|
                            values.len() <= k < items.len() && k % 2 == 0 ==> (
                            #[trigger] items[k]).key_bytes() is Some,
                    decreases values.len(),
                {
                    proof {
                        lemma_views_of(values@);
                    }
                    let ghost n = values.len() as int;
                    let ghost before = values@;
                    let value = match values.pop() {
                        Some(v) => v,
                        None => RedisValue::Null,
                    };
                    let key_value = match values.pop() {
                        Some(v) => v,
                        None => RedisValue::Null,
                    };
                    proof {
                        lemma_views_of(values@);
                        assert(views_of(values@) =~= items.take(n - 2));
                        assert(views_of(before)[n - 1] == value@);
                        assert(views_of(before)[n - 2] == key_value@);
                        assert(items.take(n)[n - 1] == items[n - 1]);
                        assert(items.take(n)[n - 2] == items[n - 2]);
                        assert(items.skip(n - 2).skip(2) =~= items.skip(n));
                    }
                    let key = match RedisKey::from_value(key_value) {
                        Ok(k) => k,
                        Err(e) => {
                            assert(!keys_convertible(items));
                            return Err(e);
                        },
                    };
                    inner.insert(key, value);
                }
                proof {
                    assert(items.skip(0) =~= items);
                }
                Ok(inner)
            },
            _ => Err(RedisError::new(RedisErrorKind::Unknown, "Could not convert to map.")),
        }
    }
}

} // verus!
