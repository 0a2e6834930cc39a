//! Values gathered into maps and sets.

use crate::error::{RedisError, RedisErrorKind};
use crate::equality::values_equal;
use crate::hashing::each_hashable;
use crate::value::{
    entry_views, insert_entry, lemma_entry_views, lemma_views_of, views_of,
    RedisKey, RedisMap, RedisValue, ValueView,
};
use vstd::prelude::*;

verus! {

/// Whether a value equal to `v` stands among `kept`.
pub open spec fn occurs(kept: Seq<ValueView>, v: ValueView) -> bool {
    exists|j: int| 0 <= j < kept.len() && values_equal(#[trigger] kept[j], v)
}

/// The values of `items` without repetitions: each value is kept unless an equal one was kept
/// before it.
pub open spec fn distinct_values(items: Seq<ValueView>) -> Seq<ValueView>
    decreases items.len(),
{
    if items.len() == 0 {
        Seq::empty()
    } else {
        let kept = distinct_values(items.drop_last());
        if occurs(kept, items.last()) {
            kept
        } else {
            kept.push(items.last())
        }
    }
}

/// The entries after each pair was stored in turn: of two pairs with one key the later one
/// gives the value, and the earlier one the place.
pub open spec fn stored_pairs(pairs: Seq<(Seq<u8>, ValueView)>) -> Seq<(Seq<u8>, ValueView)>
    decreases pairs.len(),
{
    if pairs.len() == 0 {
        Seq::empty()
    } else {
        insert_entry(stored_pairs(pairs.drop_last()), pairs.last().0, pairs.last().1)
    }
}

/// Turns a vector around.
pub(crate) fn reversed<T>(v: Vec<T>) -> (r: Vec<T>)
    ensures
        r@ == v@.reverse(),
{
    let ghost all = v@;
    let mut rest = v;
    let mut out: Vec<T> = Vec::new();
    while rest.len() > 0
        invariant
            rest.len() <= all.len(),
            rest@ == all.take(rest.len() as int),
            out.len() == all.len() - rest.len(),
            forall|i: int| 0 <= i < out.len() ==> (#[trigger] out[i]) == all[all.len() - 1 - i],
        decreases rest.len(),
    {
        match rest.pop() {
            Some(x) => {
                out.push(x);
            },
            None => {},
        }
        assert(rest@ =~= all.take(rest.len() as int));
    }
    assert(out@ =~= all.reverse());
    out
}

/// Whether a value equal to `v` stands among `kept`.
fn contains_equal(kept: &Vec<RedisValue>, v: &RedisValue) -> (r: bool)
    ensures
        r == occurs(views_of(kept@), v@),
{
    proof {
        lemma_views_of(kept@);
    }
    let ghost views = views_of(kept@);
    let mut j: usize = 0;
    while j < kept.len()
        invariant
            j <= kept.len(),
            views == views_of(kept@),
            views.len() == kept.len(),
            forall|k: int| 0 <= k < kept.len() ==> (#[trigger] views[k]) == kept[k]@,
            forall|k: int| 0 <= k < j ==> !values_equal(#[trigger] views[k], v@),
        decreases kept.len() - j,
    {
        if kept[j].eq_value(v) {
            assert(values_equal(views[j as int], v@));
            return true;
        }
        j = j + 1;
    }
    false
}

impl RedisMap {
    /// A map of the given pairs, stored in turn.
    pub fn from_pairs(pairs: Vec<(RedisKey, RedisValue)>) -> (m: Self)
        ensures
            m@ == stored_pairs(entry_views(pairs@)),
    {
        let ghost all = entry_views(pairs@);
        proof {
            lemma_entry_views(pairs@);
        }
        let ghost count = pairs.len() as int;
        let mut stack = reversed(pairs);
        let mut map = RedisMap::new();
        assert(all.take(0) =~= Seq::empty());
        while stack.len() > 0
            invariant
                stack.len() <= count,
                count == all.len(),
                forall|i: int|
                    0 <= i < stack.len() ==> (#[trigger] stack[i]).0@ == all[count - 1 - i].0
                        && stack[i].1@ == all[count - 1 - i].1,
                map@ == stored_pairs(all.take(count - stack.len())),
            decreases stack.len(),
        {
            let ghost done = count - stack.len();
            match stack.pop() {
                Some((key, value)) => {
                    assert(all.take(done + 1).drop_last() =~= all.take(done));
                    assert(all.take(done + 1).last() == all[done]);
                    map.insert(key, value);
                },
                None => {},
            }
        }
        assert(all.take(count) =~= all);
        map
    }
}

impl RedisValue {
    /// The distinct elements of an array, each kept where it first occurs. Anything but an
    /// array is refused as a `Parse` error. The elements must be values that can be hashed.
    pub fn into_set(self) -> (r: Result<Vec<RedisValue>, RedisError>)
        requires
            self@ matches ValueView::Array(items) ==> each_hashable(items),
        ensures
            match self@ {
                ValueView::Array(items) => r matches Ok(v) && views_of(v@) == distinct_values(
                    items,
                ),
                _ => r matches Err(e) && e.kind() == RedisErrorKind::Parse,
            },
    {
        match self {
            RedisValue::Array(values) => {
                proof {
                    lemma_views_of(values@);
                }
                let ghost items = views_of(values@);
                let mut out: Vec<RedisValue> = Vec::new();
                proof {
                    lemma_views_of(out@);
                    assert(items.take(0) =~= Seq::empty());
                    assert(views_of(out@) =~= Seq::empty());
                }
                let mut i: usize = 0;
                while i < values.len()
                    invariant
                        i <= values.len(),
                        items == views_of(values@),
                        items.len() == values.len(),
                        forall|k: int| 0 <= k < values.len() ==> (#[trigger] items[k]) == values[k]@,
                        views_of(out@) == distinct_values(items.take(i as int)),
                    decreases values.len() - i,
                {
                    let ghost kept = out@;
                    proof {
                        lemma_views_of(kept);
                        assert(items.take(i + 1).drop_last() =~= items.take(i as int));
                        assert(items.take(i + 1).last() == items[i as int]);
                    }
                    if !contains_equal(&out, &values[i]) {
                        out.push(values[i].clone());
                        proof {
                            lemma_views_of(out@);
                            assert(views_of(out@) =~= views_of(kept).push(items[i as int]));
                        }
                    }
                    i = i + 1;
                }
                assert(items.take(i as int) =~= items);
                Ok(out)
            },
            _ => Err(RedisError::new_parse("Could not convert to set.")),
        }
    }
}

} // verus!
