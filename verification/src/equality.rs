//! When two values are equal.

use crate::buffer::{bytes_as_slice, str_inner};
use crate::value::{
    bytes_eq, distinct_keys, key_index, lemma_entry_views, lemma_views_of, views_of, RedisMap,
    RedisValue, ValueView,
};
use vstd::prelude::*;

verus! {

/// How far apart two bit patterns are when read as signed integers that wrap around: the
/// number of representable doubles between two numbers of the same sign.
pub open spec fn ulps_apart(a: u64, b: u64) -> nat {
    let d = if a >= b {
        a - b
    } else {
        b - a
    };
    if d <= 0x8000_0000_0000_0000 {
        d as nat
    } else {
        (0x1_0000_0000_0000_0000 - d) as nat
    }
}

/// Whether two values are equal. Numbers of double precision are equal when their bit patterns
/// are at most two units in the last place apart; maps are equal when they hold the same keys
/// with equal values, in whatever order; arrays are equal element by element.
pub open spec fn values_equal(a: ValueView, b: ValueView) -> bool
    decreases a,
{
    match (a, b) {
        (ValueView::Boolean(x), ValueView::Boolean(y)) => x == y,
        (ValueView::Integer(x), ValueView::Integer(y)) => x == y,
        (ValueView::Double(x), ValueView::Double(y)) => ulps_apart(x.bits, y.bits) <= 2,
        (ValueView::String(x), ValueView::String(y)) => x == y,
        (ValueView::Bytes(x), ValueView::Bytes(y)) => x == y,
        (ValueView::Null, ValueView::Null) => true,
        (ValueView::Queued, ValueView::Queued) => true,
        (ValueView::Mapping(x), ValueView::Mapping(y)) => entries_equal(x, y),
        (ValueView::Array(x), ValueView::Array(y)) => items_equal(x, y),
        _ => false,
    }
}

/// Whether two runs of values are equally long and equal element by element.
pub open spec fn items_equal(x: Seq<ValueView>, y: Seq<ValueView>) -> bool
    decreases x,
{
    x.len() == y.len() && forall|i: int| 0 <= i < x.len() ==> values_equal(#[trigger] x[i], y[i])
}

/// Whether two runs of entries are equally long and each key of the first occurs in the second
/// with an equal value.
pub open spec fn entries_equal(x: Seq<(Seq<u8>, ValueView)>, y: Seq<(Seq<u8>, ValueView)>) -> bool
    decreases x,
{
    x.len() == y.len() && forall|i: int| 0 <= i < x.len() ==> has_equal_entry(#[trigger] x[i], y)
}

/// Whether the key of `e` occurs in `y` with a value equal to that of `e`.
pub open spec fn has_equal_entry(e: (Seq<u8>, ValueView), y: Seq<(Seq<u8>, ValueView)>) -> bool
    decreases e,
{
    exists|j: int| 0 <= j < y.len() && (#[trigger] y[j]).0 == e.0 && values_equal(e.1, y[j].1)
}

/// Whether two bit patterns are at most two units in the last place apart.
pub fn doubles_close(a: u64, b: u64) -> (r: bool)
    ensures
        r == (ulps_apart(a, b) <= 2),
{
    let d: u64 = if a >= b {
        a - b
    } else {
        b - a
    };
    d <= 2 || d >= 0xffff_ffff_ffff_fffe
}

/// Whether two runs of values are equal element by element.
fn arrays_equal(a: &Vec<RedisValue>, b: &Vec<RedisValue>) -> (r: bool)
    ensures
        r == values_equal(ValueView::Array(views_of(a@)), ValueView::Array(views_of(b@))),
    decreases a,
{
    proof {
        lemma_views_of(a@);
        lemma_views_of(b@);
    }
    if a.len() != b.len() {
        return false;
    }
    let mut i: usize = 0;
    while i < a.len()
        invariant
            i <= a.len(),
            a.len() == b.len(),
            views_of(a@).len() == a.len(),
            views_of(b@).len() == b.len(),
            forall|j: int| 0 <= j < a.len() ==> (#[trigger] views_of(a@)[j]) == a[j]@,
            forall|j: int| 0 <= j < b.len() ==> (#[trigger] views_of(b@)[j]) == b[j]@,
            forall|j: int| 0 <= j < i ==> values_equal(#[trigger] views_of(a@)[j], views_of(b@)[j]),
        decreases a.len() - i,
    {
        if !a[i].eq_value(&b[i]) {
            assert(!values_equal(views_of(a@)[i as int], views_of(b@)[i as int]));
            return false;
        }
        i = i + 1;
    }
    true
}

impl RedisMap {
    /// Whether the two maps hold the same keys with equal values.
    pub fn eq_map(&self, other: &RedisMap) -> (r: bool)
        ensures
            r == entries_equal(self@, other@),
        decreases self,
    {
        let mine = self.entries();
        let theirs = other.entries();
        proof {
            lemma_entry_views(mine@);
            lemma_entry_views(theirs@);
        }
        if mine.len() != theirs.len() {
            return false;
        }
        let mut i: usize = 0;
        while i < mine.len()
            invariant
                i <= mine.len(),
                *mine == self.entries,
                *theirs == other.entries,
                self@.len() == mine.len(),
                other@.len() == theirs.len(),
                self@.len() == other@.len(),
                distinct_keys(other@),
                forall|j: int|
                    0 <= j < mine.len() ==> (#[trigger] self@[j]) == (
                        mine[j].0@,
                        mine[j].1@,
                    ),
                forall|j: int|
                    0 <= j < theirs.len() ==> (#[trigger] other@[j]) == (
                        theirs[j].0@,
                        theirs[j].1@,
                    ),
                forall|k: int| 0 <= k < i ==> has_equal_entry(#[trigger] self@[k], other@),
            decreases mine.len() - i,
        {
            let found = match other.position(&mine[i].0) {
                Some(j) => {
                    let same = mine[i].1.eq_value(&theirs[j].1);
                    proof {
                        if !same {
                            assert forall|m: int|
                                0 <= m < other@.len() && (#[trigger] other@[m]).0
                                    == self@[i as int].0 implies !values_equal(
                                self@[i as int].1,
                                other@[m].1,
                            ) by {
                                if m < j {
                                    assert(other@[m].0 != other@[j as int].0);
                                } else if j < m {
                                    assert(other@[j as int].0 != other@[m].0);
                                }
                            }
                            assert(!has_equal_entry(self@[i as int], other@));
                        } else {
                            assert(other@[j as int].0 == self@[i as int].0);
                            assert(has_equal_entry(self@[i as int], other@));
                        }
                    }
                    same
                },
                None => {
                    proof {
                        assert forall|m: int| 0 <= m < other@.len() implies (
                        #[trigger] other@[m]).0 != self@[i as int].0 by {
                            if self@[i as int].0 == other@[m].0 {
                                assert(key_index(other@, self@[i as int].0) is Some);
                            }
                        }
                        assert(!has_equal_entry(self@[i as int], other@));
                    }
                    false
                },
            };
            if !found {
                return false;
            }
            i = i + 1;
        }
        true
    }
}

impl RedisValue {
    /// Whether the two values are equal.
    pub fn eq_value(&self, other: &RedisValue) -> (r: bool)
        ensures
            r == values_equal(self@, other@),
        decreases self,
    {
        match (self, other) {
            (RedisValue::Boolean(x), RedisValue::Boolean(y)) => *x == *y,
            (RedisValue::Integer(x), RedisValue::Integer(y)) => *x == *y,
            (RedisValue::Double(x), RedisValue::Double(y)) => doubles_close(x.bits(), y.bits()),
            (RedisValue::String(x), RedisValue::String(y)) => bytes_eq(
                bytes_as_slice(str_inner(x)),
                bytes_as_slice(str_inner(y)),
            ),
            (RedisValue::Bytes(x), RedisValue::Bytes(y)) => bytes_eq(
                bytes_as_slice(x),
                bytes_as_slice(y),
            ),
            (RedisValue::Null, RedisValue::Null) => true,
            (RedisValue::Queued, RedisValue::Queued) => true,
            (RedisValue::Mapping(x), RedisValue::Mapping(y)) => x.eq_map(y),
            (RedisValue::Array(x), RedisValue::Array(y)) => arrays_equal(x, y),
            _ => false,
        }
    }
}

impl PartialEq for RedisValue {
    fn eq(&self, other: &Self) -> (r: bool) {
        self.eq_value(other)
    }
}

impl vstd::std_specs::cmp::PartialEqSpecImpl for RedisValue {
    open spec fn obeys_eq_spec() -> bool {
        true
    }

    open spec fn eq_spec(&self, other: &Self) -> bool {
        values_equal(self@, other@)
    }
}

impl Eq for RedisValue {

}

impl PartialEq for RedisMap {
    fn eq(&self, other: &Self) -> (r: bool) {
        self.eq_map(other)
    }
}

impl vstd::std_specs::cmp::PartialEqSpecImpl for RedisMap {
    open spec fn obeys_eq_spec() -> bool {
        true
    }

    open spec fn eq_spec(&self, other: &Self) -> bool {
        entries_equal(self@, other@)
    }
}

impl Eq for RedisMap {

}

/// Every value equals itself.
pub proof fn lemma_equal_to_itself(v: ValueView)
    ensures
        values_equal(v, v),
    decreases v,
{
    match v {
        ValueView::Array(items) => {
            assert forall|i: int| 0 <= i < items.len() implies values_equal(
                #[trigger] items[i],
                items[i],
            ) by {
                lemma_equal_to_itself(items[i]);
            }
        },
        ValueView::Mapping(entries) => {
            assert forall|i: int| 0 <= i < entries.len() implies has_equal_entry(
                #[trigger] entries[i],
                entries,
            ) by {
                lemma_equal_to_itself(entries[i].1);
            }
        },
        _ => {},
    }
}

} // verus!
