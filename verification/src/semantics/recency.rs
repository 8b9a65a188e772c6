//! Entries in order of use, and caches that drop the entry unused for longest.
use vstd::prelude::*;

verus! {

/// Whether a key has an entry.
pub open spec fn has_key<K, V>(entries: Seq<(K, V)>, key: K) -> bool {
    exists|i: int| 0 <= i < entries.len() && (#[trigger] entries[i]).0 == key
}

/// Where the entry of a key stands.
pub open spec fn place<K, V>(entries: Seq<(K, V)>, key: K) -> int {
    choose|i: int| 0 <= i < entries.len() && (#[trigger] entries[i]).0 == key
}

/// The value of a key.
pub open spec fn value_of<K, V>(entries: Seq<(K, V)>, key: K) -> Option<V> {
    if has_key(entries, key) {
        Some(entries[place(entries, key)].1)
    } else {
        None
    }
}

/// The entries without that of a key.
pub open spec fn without<K, V>(entries: Seq<(K, V)>, key: K) -> Seq<(K, V)> {
    if has_key(entries, key) {
        entries.remove(place(entries, key))
    } else {
        entries
    }
}

/// No key has two entries.
pub open spec fn distinct<K, V>(entries: Seq<(K, V)>) -> bool {
    forall|i: int, j: int|
        0 <= i < j < entries.len() ==> (#[trigger] entries[i]).0 != (#[trigger] entries[j]).0
}

/// The entries after a key was given a value, which makes it the last used one. A new key
/// in a full cache takes the place of the entry unused for longest.
pub open spec fn pushed<K, V>(entries: Seq<(K, V)>, limit: nat, key: K, value: V) -> Seq<(K, V)> {
    if !has_key(entries, key) && entries.len() == limit {
        entries.drop_first().push((key, value))
    } else {
        without(entries, key).push((key, value))
    }
}

/// The entry that a new value displaces: the former one of the key, or the one unused for
/// longest in a full cache.
pub open spec fn displaced<K, V>(entries: Seq<(K, V)>, limit: nat, key: K) -> Option<(K, V)> {
    if has_key(entries, key) {
        Some((key, entries[place(entries, key)].1))
    } else if entries.len() == limit {
        Some(entries[0])
    } else {
        None
    }
}

/// Removing an entry takes away its key and no other.
pub proof fn without_drops_one_key<K, V>(entries: Seq<(K, V)>, key: K, other: K)
    requires
        distinct(entries),
    ensures
        distinct(without(entries, key)),
        !has_key(without(entries, key), key),
        other != key ==> value_of(without(entries, key), other) == value_of(entries, other),
        without(entries, key).len() <= entries.len(),
        has_key(entries, key) ==> without(entries, key).len() == entries.len() - 1,
{
    let left = without(entries, key);
    if has_key(entries, key) {
        let at = place(entries, key);
        assert forall|i: int| 0 <= i < left.len() implies (#[trigger] left[i]) == entries[if i < at {
            i
        } else {
            i + 1
        }] by {}
        assert(distinct(left));
        assert(!has_key(left, key));
        if other != key {
            if has_key(entries, other) {
                let from = place(entries, other);
                let to = if from < at {
                    from
                } else {
                    from - 1
                };
                assert(left[to] == entries[from]);
                lemma_value_at(left, to);
            } else if has_key(left, other) {
                let to = place(left, other);
                assert(entries[if to < at {
                    to
                } else {
                    to + 1
                }].0 == other);
            }
        }
    }
}

/// The entry at a position is the value of its key.
pub proof fn lemma_value_at<K, V>(entries: Seq<(K, V)>, at: int)
    requires
        distinct(entries),
        0 <= at < entries.len(),
    ensures
        has_key(entries, entries[at].0),
        place(entries, entries[at].0) == at,
        value_of(entries, entries[at].0) == Some(entries[at].1),
{
    let key = entries[at].0;
    assert(has_key(entries, key));
    let found = place(entries, key);
    assert(entries[found].0 == key);
    if found < at {
        assert(entries[found].0 != entries[at].0);
    } else if at < found {
        assert(entries[at].0 != entries[found].0);
    }
}

/// Giving a new key the last place adds that key.
pub proof fn appended_key<K, V>(entries: Seq<(K, V)>, key: K, value: V, other: K)
    requires
        distinct(entries),
        !has_key(entries, key),
    ensures
        distinct(entries.push((key, value))),
        value_of(entries.push((key, value)), key) == Some(value),
        other != key ==> value_of(entries.push((key, value)), other) == value_of(entries, other),
{
    let more = entries.push((key, value));
    assert forall|i: int| 0 <= i < entries.len() implies (#[trigger] more[i]) == entries[i] by {}
    assert forall|i: int| 0 <= i < entries.len() implies (#[trigger] entries[i]).0 != key by {
        if entries[i].0 == key {
            assert(has_key(entries, key));
        }
    }
    assert(distinct(more));
    lemma_value_at(more, entries.len() as int);
    if other != key {
        if has_key(entries, other) {
            let at = place(entries, other);
            assert(more[at] == entries[at]);
            lemma_value_at(more, at);
        } else if has_key(more, other) {
            let at = place(more, other);
            assert(entries[at].0 == other);
        }
    }
}

/// Dropping the first entry takes away its key and no other.
pub proof fn first_dropped<K, V>(entries: Seq<(K, V)>, other: K)
    requires
        distinct(entries),
        entries.len() > 0,
    ensures
        distinct(entries.drop_first()),
        !has_key(entries.drop_first(), entries[0].0),
        other != entries[0].0 ==> value_of(entries.drop_first(), other) == value_of(entries, other),
{
    lemma_value_at(entries, 0);
    assert(entries.remove(0) =~= entries.drop_first());
    without_drops_one_key(entries, entries[0].0, other);
}

} // verus!
