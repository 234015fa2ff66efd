//! Lists of keyed entries read as maps: where a key occurs more than once, the
//! last entry counts.

use crate::text::same;
use vstd::prelude::*;

verus! {

/// The map that a list of entries stands for.
pub open spec fn map_of<V>(entries: Seq<(Seq<char>, V)>) -> Map<Seq<char>, V>
    decreases entries.len(),
{
    if entries.len() == 0 {
        Map::empty()
    } else {
        map_of(entries.drop_last()).insert(entries.last().0, entries.last().1)
    }
}

/// Whether `at` is the place of the last entry for `key`.
pub open spec fn last_for<V>(entries: Seq<(Seq<char>, V)>, key: Seq<char>, at: int) -> bool {
    &&& 0 <= at < entries.len()
    &&& entries[at].0 == key
    &&& forall|j: int| at < j < entries.len() ==> entries[j].0 != key
}

/// Whether no key occurs twice.
pub open spec fn distinct_keys<V>(entries: Seq<(Seq<char>, V)>) -> bool {
    forall|i: int, j: int| 0 <= i < j < entries.len() ==> entries[i].0 != entries[j].0
}

/// A list of entries stands for a finite map.
pub proof fn lemma_map_of_finite<V>(entries: Seq<(Seq<char>, V)>)
    ensures
        map_of(entries).dom().finite(),
    decreases entries.len(),
{
    if entries.len() > 0 {
        lemma_map_of_finite(entries.drop_last());
    }
}

/// A map holds under a key what the last entry for it says.
pub proof fn lemma_map_of_last<V>(entries: Seq<(Seq<char>, V)>, key: Seq<char>, at: int)
    requires
        last_for(entries, key, at),
    ensures
        map_of(entries).contains_key(key),
        map_of(entries)[key] == entries[at].1,
    decreases entries.len(),
{
    if at < entries.len() - 1 {
        assert(entries.last().0 != key);
        assert(last_for(entries.drop_last(), key, at));
        lemma_map_of_last(entries.drop_last(), key, at);
    }
}

/// A key without an entry is not in the map.
pub proof fn lemma_map_of_absent<V>(entries: Seq<(Seq<char>, V)>, key: Seq<char>)
    requires
        forall|j: int| 0 <= j < entries.len() ==> entries[j].0 != key,
    ensures
        !map_of(entries).contains_key(key),
    decreases entries.len(),
{
    if entries.len() > 0 {
        assert(entries.last().0 != key);
        lemma_map_of_absent(entries.drop_last(), key);
    }
}

/// Overwriting the last entry for a key is an insertion.
pub proof fn lemma_map_of_update<V>(
    entries: Seq<(Seq<char>, V)>,
    key: Seq<char>,
    value: V,
    at: int,
)
    requires
        last_for(entries, key, at),
    ensures
        map_of(entries.update(at, (key, value))) == map_of(entries).insert(key, value),
    decreases entries.len(),
{
    let next = entries.update(at, (key, value));
    if at == entries.len() - 1 {
        assert(next.drop_last() =~= entries.drop_last());
        assert(map_of(next) =~= map_of(entries).insert(key, value));
    } else {
        assert(entries.last().0 != key);
        assert(last_for(entries.drop_last(), key, at));
        lemma_map_of_update(entries.drop_last(), key, value, at);
        assert(next.drop_last() =~= entries.drop_last().update(at, (key, value)));
        assert(map_of(next) =~= map_of(entries).insert(key, value));
    }
}

/// Appending an entry is an insertion.
pub proof fn lemma_map_of_push<V>(entries: Seq<(Seq<char>, V)>, key: Seq<char>, value: V)
    ensures
        map_of(entries.push((key, value))) == map_of(entries).insert(key, value),
{
    assert(entries.push((key, value)).drop_last() =~= entries);
}

/// Taking out an entry for a key changes nothing under other keys.
pub proof fn lemma_map_of_remove<V>(entries: Seq<(Seq<char>, V)>, key: Seq<char>, at: int)
    requires
        last_for(entries, key, at),
    ensures
        map_of(entries.remove(at)).remove(key) == map_of(entries).remove(key),
    decreases entries.len(),
{
    let next = entries.remove(at);
    if at == entries.len() - 1 {
        assert(next =~= entries.drop_last());
        assert(map_of(next).remove(key) =~= map_of(entries).remove(key));
    } else {
        assert(entries.last().0 != key);
        assert(last_for(entries.drop_last(), key, at));
        lemma_map_of_remove(entries.drop_last(), key, at);
        assert(next.drop_last() =~= entries.drop_last().remove(at));
        assert(next.last() == entries.last());
        assert(map_of(next).remove(key) =~= map_of(entries).remove(key)) by {
            assert(map_of(next).remove(key) =~= map_of(next.drop_last()).remove(key).insert(
                entries.last().0,
                entries.last().1,
            ));
            assert(map_of(entries).remove(key) =~= map_of(entries.drop_last()).remove(key).insert(
                entries.last().0,
                entries.last().1,
            ));
        }
    }
}

/// The place of the last entry for `key`.
pub fn find_last<X>(entries: &Vec<(String, X)>, key: &str) -> (r: Option<usize>)
    ensures
        match r {
            Some(at) => {
                &&& at < entries@.len()
                &&& entries@[at as int].0@ == key@
                &&& forall|j: int| at < j < entries@.len() ==> (#[trigger] entries@[j]).0@ != key@
            },
            None => forall|j: int| 0 <= j < entries@.len() ==> (#[trigger] entries@[j]).0@ != key@,
        },
{
    let mut i: usize = entries.len();
    while i > 0
        invariant
            i <= entries@.len(),
            forall|j: int| i <= j < entries@.len() ==> (#[trigger] entries@[j]).0@ != key@,
        decreases i,
    {
        if same(entries[i - 1].0.as_str(), key) {
            return Some(i - 1);
        }
        i -= 1;
    }
    None
}

} // verus!
