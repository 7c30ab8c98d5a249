//! Maps written out as plain lists of entries, and read back.
//!
//! This is the form in which the stores leave the library to be saved and
//! come back when they are loaded.

use vstd::prelude::*;

verus! {

/// The map that a list of entries gives when they are inserted in order: a
/// later entry replaces an earlier one with the same key.
pub open spec fn collected<K, V>(entries: Seq<(K, V)>) -> Map<K, V>
    decreases entries.len(),
{
    if entries.len() == 0 {
        Map::empty()
    } else {
        collected(entries.drop_last()).insert(entries.last().0, entries.last().1)
    }
}

/// The key of the entry at position `i`.
pub open spec fn key_at<K, V>(entries: Seq<(K, V)>, i: int) -> K {
    entries[i].0
}

/// Whether some entry has the key `key`.
pub open spec fn has_key<K, V>(entries: Seq<(K, V)>, key: K) -> bool {
    exists|i: int| 0 <= i < entries.len() && #[trigger] key_at(entries, i) == key
}

/// Whether no key occurs in two entries.
pub open spec fn distinct_keys<K, V>(entries: Seq<(K, V)>) -> bool {
    forall|i: int, j: int|
        0 <= i < j < entries.len() ==> #[trigger] key_at(entries, i) != #[trigger] key_at(
            entries,
            j,
        )
}

/// Whether `entries` lists `map`: every key of the map once, with its value,
/// and nothing else.
pub open spec fn is_listing_of<K, V>(entries: Seq<(K, V)>, map: Map<K, V>) -> bool {
    &&& distinct_keys(entries)
    &&& forall|i: int|
        0 <= i < entries.len() ==> map.contains_key(#[trigger] key_at(entries, i))
            && map[entries[i].0] == entries[i].1
    &&& forall|k: K| #[trigger] map.contains_key(k) ==> has_key(entries, k)
}

/// The keys of the collected map are the keys of the entries.
pub proof fn lemma_collected_keys<K, V>(entries: Seq<(K, V)>, key: K)
    ensures
        collected(entries).contains_key(key) <==> has_key(entries, key),
    decreases entries.len(),
{
    if entries.len() > 0 {
        let shorter = entries.drop_last();
        let n = entries.len() - 1;
        lemma_collected_keys(shorter, key);
        if has_key(shorter, key) {
            let i = choose|i: int| 0 <= i < shorter.len() && #[trigger] key_at(shorter, i) == key;
            assert(key_at(entries, i) == key);
        }
        if has_key(entries, key) {
            let i = choose|i: int| 0 <= i < entries.len() && #[trigger] key_at(entries, i) == key;
            if i < n {
                assert(key_at(shorter, i) == key);
            }
        }
        if key == entries.last().0 {
            assert(key_at(entries, n) == key);
        }
    }
}

/// Among entries with distinct keys, each key collects to the value of its
/// entry.
pub proof fn lemma_collected_value<K, V>(entries: Seq<(K, V)>, i: int)
    requires
        distinct_keys(entries),
        0 <= i < entries.len(),
    ensures
        collected(entries).contains_key(entries[i].0),
        collected(entries)[entries[i].0] == entries[i].1,
    decreases entries.len(),
{
    let shorter = entries.drop_last();
    let n = entries.len() - 1;
    if i < n {
        assert(key_at(entries, i) != key_at(entries, n));
        assert forall|a: int, b: int| 0 <= a < b < shorter.len() implies #[trigger] key_at(
            shorter,
            a,
        ) != #[trigger] key_at(shorter, b) by {
            assert(key_at(entries, a) != key_at(entries, b));
        }
        lemma_collected_value(shorter, i);
    }
}

/// Round trip: the entries that list a map collect to that map.
pub proof fn lemma_collected_listing<K, V>(entries: Seq<(K, V)>, map: Map<K, V>)
    requires
        is_listing_of(entries, map),
    ensures
        collected(entries) == map,
{
    assert forall|k: K| collected(entries).contains_key(k) <==> map.contains_key(k) by {
        lemma_collected_keys(entries, k);
    }
    assert forall|k: K| map.contains_key(k) implies collected(entries)[k] == map[k] by {
        let i = choose|i: int| 0 <= i < entries.len() && #[trigger] key_at(entries, i) == k;
        lemma_collected_value(entries, i);
    }
}

} // verus!
