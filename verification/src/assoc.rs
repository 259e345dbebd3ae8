//! Tables kept as lists of pairs whose keys are all different, seen as
//! maps.

use vstd::prelude::*;

verus! {

/// Whether no key stands twice in `entries`.
pub open spec fn distinct_keys<K, V>(entries: Seq<(K, V)>) -> bool {
    forall|i: int, j: int|
        0 <= i < j < entries.len() ==> (#[trigger] entries[i]).0 != (#[trigger] entries[j]).0
}

/// Whether `key` stands in `entries`.
pub open spec fn has_key<K, V>(entries: Seq<(K, V)>, key: K) -> bool {
    exists|i: int| 0 <= i < entries.len() && (#[trigger] entries[i]).0 == key
}

/// A place where `key` stands in `entries`.
pub open spec fn place_of<K, V>(entries: Seq<(K, V)>, key: K) -> int {
    choose|i: int| 0 <= i < entries.len() && (#[trigger] entries[i]).0 == key
}

/// The map from the keys of `entries` to what stands with them.
pub open spec fn to_map<K, V>(entries: Seq<(K, V)>) -> Map<K, V> {
    Map::new(|key: K| has_key(entries, key), |key: K| entries[place_of(entries, key)].1)
}

/// The keys of the map of `entries` are finitely many: as many as there
/// are entries, where no key stands twice.
pub proof fn lemma_to_map_len<K, V>(entries: Seq<(K, V)>)
    requires
        distinct_keys(entries),
    ensures
        to_map(entries).dom().finite(),
        to_map(entries).dom().len() == entries.len(),
    decreases entries.len(),
{
    if entries.len() == 0 {
        assert(to_map(entries).dom() =~= Set::<K>::empty());
    } else {
        let front = entries.drop_last();
        let last = entries.last();
        assert(distinct_keys(front)) by {
            assert forall|i: int, j: int| 0 <= i < j < front.len() implies (#[trigger] front[i]).0
                != (#[trigger] front[j]).0 by {
                assert(entries[i].0 != entries[j].0);
            }
        }
        lemma_to_map_len(front);
        assert(!has_key(front, last.0)) by {
            if has_key(front, last.0) {
                let i = place_of(front, last.0);
                assert(entries[i].0 != entries[entries.len() - 1].0);
            }
        }
        assert(to_map(entries).dom() =~= to_map(front).dom().insert(last.0)) by {
            assert forall|key: K| to_map(entries).dom().contains(key) == to_map(
                front,
            ).dom().insert(last.0).contains(key) by {
                if has_key(entries, key) {
                    let i = place_of(entries, key);
                    if i < front.len() {
                        assert(front[i].0 == key);
                    }
                }
                if has_key(front, key) {
                    let i = place_of(front, key);
                    assert(entries[i].0 == key);
                }
                if key == last.0 {
                    assert(entries[entries.len() - 1].0 == key);
                }
            }
        }
    }
}

/// What stands at a place of `entries` is what the map has for its key.
pub proof fn lemma_entry_in_map<K, V>(entries: Seq<(K, V)>, i: int)
    requires
        distinct_keys(entries),
        0 <= i < entries.len(),
    ensures
        to_map(entries).contains_key(entries[i].0),
        to_map(entries)[entries[i].0] == entries[i].1,
{
    let key = entries[i].0;
    assert(has_key(entries, key));
    let j = place_of(entries, key);
    if i < j {
        assert(entries[i].0 != entries[j].0);
    } else if j < i {
        assert(entries[j].0 != entries[i].0);
    }
}

/// A new entry with a new key adds the key to the map.
pub proof fn lemma_push_entry<K, V>(entries: Seq<(K, V)>, key: K, value: V)
    requires
        distinct_keys(entries),
        !has_key(entries, key),
    ensures
        distinct_keys(entries.push((key, value))),
        to_map(entries.push((key, value))) == to_map(entries).insert(key, value),
{
    let more = entries.push((key, value));
    assert(distinct_keys(more)) by {
        assert forall|i: int, j: int| 0 <= i < j < more.len() implies (#[trigger] more[i]).0 != (
        #[trigger] more[j]).0 by {
            if j < entries.len() {
                assert(entries[i].0 != entries[j].0);
            } else {
                assert(entries[i].0 != key);
            }
        }
    }
    assert(to_map(more) =~= to_map(entries).insert(key, value)) by {
        assert forall|k: K| #[trigger] to_map(more).contains_key(k) == to_map(entries).insert(
            key,
            value,
        ).contains_key(k) by {
            if has_key(more, k) {
                let i = place_of(more, k);
                if i < entries.len() {
                    assert(entries[i].0 == k);
                }
            }
            if has_key(entries, k) {
                let i = place_of(entries, k);
                assert(more[i].0 == k);
            }
            if k == key {
                assert(more[more.len() - 1].0 == k);
            }
        }
        assert forall|k: K| to_map(more).contains_key(k) implies #[trigger] to_map(more)[k]
            == to_map(entries).insert(key, value)[k] by {
            let i = place_of(more, k);
            lemma_entry_in_map(more, i);
            if i < entries.len() {
                lemma_entry_in_map(entries, i);
            }
        }
    }
}

/// Another value at a place of `entries` gives the key that value in the
/// map.
pub proof fn lemma_update_entry<K, V>(entries: Seq<(K, V)>, i: int, value: V)
    requires
        distinct_keys(entries),
        0 <= i < entries.len(),
    ensures
        distinct_keys(entries.update(i, (entries[i].0, value))),
        to_map(entries.update(i, (entries[i].0, value))) == to_map(entries).insert(
            entries[i].0,
            value,
        ),
{
    let key = entries[i].0;
    let changed = entries.update(i, (key, value));
    assert(distinct_keys(changed)) by {
        assert forall|a: int, b: int| 0 <= a < b < changed.len() implies (#[trigger] changed[a]).0
            != (#[trigger] changed[b]).0 by {
            assert(entries[a].0 != entries[b].0);
        }
    }
    assert(to_map(changed) =~= to_map(entries).insert(key, value)) by {
        assert forall|k: K| #[trigger] to_map(changed).contains_key(k) == to_map(entries).insert(
            key,
            value,
        ).contains_key(k) by {
            if has_key(changed, k) {
                let j = place_of(changed, k);
                assert(entries[j].0 == k);
            }
            if has_key(entries, k) {
                let j = place_of(entries, k);
                assert(changed[j].0 == k);
            }
            if k == key {
                assert(changed[i].0 == k);
            }
        }
        assert forall|k: K| to_map(changed).contains_key(k) implies #[trigger] to_map(changed)[k]
            == to_map(entries).insert(key, value)[k] by {
            let j = place_of(changed, k);
            lemma_entry_in_map(changed, j);
            lemma_entry_in_map(entries, j);
        }
    }
}

/// Taking an entry out of `entries` takes its key out of the map.
pub proof fn lemma_remove_entry<K, V>(entries: Seq<(K, V)>, i: int)
    requires
        distinct_keys(entries),
        0 <= i < entries.len(),
    ensures
        distinct_keys(entries.remove(i)),
        to_map(entries.remove(i)) == to_map(entries).remove(entries[i].0),
{
    let key = entries[i].0;
    let fewer = entries.remove(i);
    assert forall|a: int| 0 <= a < fewer.len() implies #[trigger] fewer[a] == entries[if a < i {
        a
    } else {
        a + 1
    }] by {}
    assert(distinct_keys(fewer)) by {
        assert forall|a: int, b: int| 0 <= a < b < fewer.len() implies (#[trigger] fewer[a]).0 != (
        #[trigger] fewer[b]).0 by {
            let a2 = if a < i {
                a
            } else {
                a + 1
            };
            let b2 = if b < i {
                b
            } else {
                b + 1
            };
            assert(entries[a2].0 != entries[b2].0);
        }
    }
    assert(to_map(fewer) =~= to_map(entries).remove(key)) by {
        assert forall|k: K| #[trigger] to_map(fewer).contains_key(k) == to_map(entries).remove(
            key,
        ).contains_key(k) by {
            if has_key(fewer, k) {
                let j = place_of(fewer, k);
                let j2 = if j < i {
                    j
                } else {
                    j + 1
                };
                assert(entries[j2].0 == k);
                if j2 < i {
                    assert(entries[j2].0 != entries[i].0);
                } else {
                    assert(entries[i].0 != entries[j2].0);
                }
            }
            if has_key(entries, k) && k != key {
                let j = place_of(entries, k);
                let j2 = if j < i {
                    j
                } else {
                    j - 1
                };
                assert(fewer[j2].0 == k);
            }
        }
        assert forall|k: K| to_map(fewer).contains_key(k) implies #[trigger] to_map(fewer)[k]
            == to_map(entries).remove(key)[k] by {
            let j = place_of(fewer, k);
            let j2 = if j < i {
                j
            } else {
                j + 1
            };
            lemma_entry_in_map(fewer, j);
            lemma_entry_in_map(entries, j2);
        }
    }
}

/// A key that stands nowhere in `entries` is none of the map.
pub proof fn lemma_absent_key<K, V>(entries: Seq<(K, V)>, key: K)
    requires
        forall|i: int| 0 <= i < entries.len() ==> (#[trigger] entries[i]).0 != key,
    ensures
        !to_map(entries).contains_key(key),
{
}

} // verus!
