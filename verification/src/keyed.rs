//! Sequences of entries with distinct keys, read as maps.

use vstd::prelude::*;

verus! {

/// Some entry has this key.
pub open spec fn has_key<E, K>(entries: Seq<E>, key_of: spec_fn(E) -> K, key: K) -> bool {
    exists|i: int| 0 <= i < entries.len() && key_of(#[trigger] entries[i]) == key
}

/// The position of an entry with this key, where there is one.
pub open spec fn index_of_key<E, K>(entries: Seq<E>, key_of: spec_fn(E) -> K, key: K) -> int {
    choose|i: int| 0 <= i < entries.len() && key_of(#[trigger] entries[i]) == key
}

/// No two entries have the same key.
pub open spec fn distinct_keys<E, K>(entries: Seq<E>, key_of: spec_fn(E) -> K) -> bool {
    forall|i: int, j: int|
        0 <= i < entries.len() && 0 <= j < entries.len() && key_of(#[trigger] entries[i]) == key_of(
            #[trigger] entries[j],
        ) ==> i == j
}

/// The map from each key to the value of the entry that has it.
pub open spec fn as_map<E, K, V>(
    entries: Seq<E>,
    key_of: spec_fn(E) -> K,
    value_of: spec_fn(E) -> V,
) -> Map<K, V> {
    Map::new(
        |key: K| has_key(entries, key_of, key),
        |key: K| value_of(entries[index_of_key(entries, key_of, key)]),
    )
}

pub proof fn lemma_as_map_at<E, K, V>(
    entries: Seq<E>,
    key_of: spec_fn(E) -> K,
    value_of: spec_fn(E) -> V,
    i: int,
)
    requires
        distinct_keys(entries, key_of),
        0 <= i < entries.len(),
    ensures
        as_map(entries, key_of, value_of).contains_key(key_of(entries[i])),
        as_map(entries, key_of, value_of)[key_of(entries[i])] == value_of(entries[i]),
{
    let key = key_of(entries[i]);
    assert(has_key(entries, key_of, key));
    assert(index_of_key(entries, key_of, key) == i);
}

pub proof fn lemma_as_map_update<E, K, V>(
    entries: Seq<E>,
    key_of: spec_fn(E) -> K,
    value_of: spec_fn(E) -> V,
    i: int,
    entry: E,
)
    requires
        distinct_keys(entries, key_of),
        0 <= i < entries.len(),
        key_of(entry) == key_of(entries[i]),
    ensures
        distinct_keys(entries.update(i, entry), key_of),
        as_map(entries.update(i, entry), key_of, value_of) == as_map(
            entries,
            key_of,
            value_of,
        ).insert(key_of(entry), value_of(entry)),
{
    let updated = entries.update(i, entry);
    assert forall|a: int, b: int|
        0 <= a < updated.len() && 0 <= b < updated.len() && key_of(#[trigger] updated[a]) == key_of(
            #[trigger] updated[b],
        ) implies a == b by {
        assert(key_of(updated[a]) == key_of(entries[a]));
        assert(key_of(updated[b]) == key_of(entries[b]));
    }
    assert forall|key: K| has_key(updated, key_of, key) == has_key(entries, key_of, key) by {
        if has_key(updated, key_of, key) {
            let k = index_of_key(updated, key_of, key);
            assert(key_of(entries[k]) == key);
        }
        if has_key(entries, key_of, key) {
            let k = index_of_key(entries, key_of, key);
            assert(key_of(updated[k]) == key);
        }
    }
    assert forall|key: K| has_key(updated, key_of, key) implies #[trigger] as_map(
        updated,
        key_of,
        value_of,
    )[key] == as_map(entries, key_of, value_of).insert(key_of(entry), value_of(entry))[key] by {
        let k = index_of_key(updated, key_of, key);
        lemma_as_map_at(updated, key_of, value_of, k);
        if k != i {
            assert(key_of(entries[k]) == key);
            lemma_as_map_at(entries, key_of, value_of, k);
        }
    }
    lemma_as_map_at(entries, key_of, value_of, i);
    assert(as_map(updated, key_of, value_of) =~= as_map(entries, key_of, value_of).insert(
        key_of(entry),
        value_of(entry),
    ));
}

pub proof fn lemma_as_map_push<E, K, V>(
    entries: Seq<E>,
    key_of: spec_fn(E) -> K,
    value_of: spec_fn(E) -> V,
    entry: E,
)
    requires
        distinct_keys(entries, key_of),
        !has_key(entries, key_of, key_of(entry)),
    ensures
        distinct_keys(entries.push(entry), key_of),
        as_map(entries.push(entry), key_of, value_of) == as_map(entries, key_of, value_of).insert(
            key_of(entry),
            value_of(entry),
        ),
{
    let longer = entries.push(entry);
    assert forall|a: int, b: int|
        0 <= a < longer.len() && 0 <= b < longer.len() && key_of(#[trigger] longer[a]) == key_of(
            #[trigger] longer[b],
        ) implies a == b by {
        if a < entries.len() {
            assert(longer[a] == entries[a]);
        }
        if b < entries.len() {
            assert(longer[b] == entries[b]);
        }
    }
    assert forall|key: K|
        has_key(longer, key_of, key) == (has_key(entries, key_of, key) || key == key_of(entry)) by {
        if has_key(longer, key_of, key) {
            let k = index_of_key(longer, key_of, key);
            if k < entries.len() {
                assert(entries[k] == longer[k]);
            }
        }
        if has_key(entries, key_of, key) {
            let k = index_of_key(entries, key_of, key);
            assert(longer[k] == entries[k]);
        }
        if key == key_of(entry) {
            assert(key_of(longer[entries.len() as int]) == key);
        }
    }
    assert forall|key: K| has_key(longer, key_of, key) implies #[trigger] as_map(
        longer,
        key_of,
        value_of,
    )[key] == as_map(entries, key_of, value_of).insert(key_of(entry), value_of(entry))[key] by {
        let k = index_of_key(longer, key_of, key);
        lemma_as_map_at(longer, key_of, value_of, k);
        if k < entries.len() {
            assert(entries[k] == longer[k]);
            lemma_as_map_at(entries, key_of, value_of, k);
        }
    }
    assert(as_map(longer, key_of, value_of) =~= as_map(entries, key_of, value_of).insert(
        key_of(entry),
        value_of(entry),
    ));
}

pub proof fn lemma_as_map_remove<E, K, V>(
    entries: Seq<E>,
    key_of: spec_fn(E) -> K,
    value_of: spec_fn(E) -> V,
    i: int,
)
    requires
        distinct_keys(entries, key_of),
        0 <= i < entries.len(),
    ensures
        distinct_keys(entries.remove(i), key_of),
        as_map(entries.remove(i), key_of, value_of) == as_map(entries, key_of, value_of).remove(
            key_of(entries[i]),
        ),
{
    let shorter = entries.remove(i);
    let gone = key_of(entries[i]);
    assert forall|a: int, b: int|
        0 <= a < shorter.len() && 0 <= b < shorter.len() && key_of(#[trigger] shorter[a]) == key_of(
            #[trigger] shorter[b],
        ) implies a == b by {
        let a2 = if a < i {
            a
        } else {
            a + 1
        };
        let b2 = if b < i {
            b
        } else {
            b + 1
        };
        assert(shorter[a] == entries[a2]);
        assert(shorter[b] == entries[b2]);
    }
    assert forall|key: K|
        has_key(shorter, key_of, key) == (has_key(entries, key_of, key) && key != gone) by {
        if has_key(shorter, key_of, key) {
            let k = index_of_key(shorter, key_of, key);
            let k2 = if k < i {
                k
            } else {
                k + 1
            };
            assert(shorter[k] == entries[k2]);
            assert(key_of(entries[k2]) == key);
        }
        if has_key(entries, key_of, key) && key != gone {
            let k = index_of_key(entries, key_of, key);
            let k2 = if k < i {
                k
            } else {
                k - 1
            };
            assert(shorter[k2] == entries[k]);
        }
    }
    assert forall|key: K| has_key(shorter, key_of, key) implies #[trigger] as_map(
        shorter,
        key_of,
        value_of,
    )[key] == as_map(entries, key_of, value_of).remove(gone)[key] by {
        let k = index_of_key(shorter, key_of, key);
        lemma_as_map_at(shorter, key_of, value_of, k);
        let k2 = if k < i {
            k
        } else {
            k + 1
        };
        assert(shorter[k] == entries[k2]);
        lemma_as_map_at(entries, key_of, value_of, k2);
    }
    assert(as_map(shorter, key_of, value_of) =~= as_map(entries, key_of, value_of).remove(gone));
}

} // verus!
