//! Lists of key-value pairs in which a later pair replaces an earlier one
//! with the same key.

use crate::text::{lemma_position, lemma_position_is, position};
use vstd::prelude::*;

verus! {

/// The keys of `entries`, in order.
pub open spec fn keys<K, V>(entries: Seq<(K, V)>) -> Seq<K> {
    entries.map_values(|e: (K, V)| e.0)
}

/// Where `key` stands in `entries`, or `entries.len()` where it is new.
pub open spec fn key_index<K, V>(entries: Seq<(K, V)>, key: K) -> int {
    position(keys(entries), key)
}

/// `entries` after `key` was given `value`: the pair takes the place of the
/// one that had this key, or goes to the end where the key is new.
pub open spec fn put<K, V>(entries: Seq<(K, V)>, key: K, value: V) -> Seq<(K, V)> {
    let i = key_index(entries, key);
    if i < entries.len() {
        entries.update(i, (key, value))
    } else {
        entries.push((key, value))
    }
}

/// The value that `entries` holds for `key`.
pub open spec fn lookup<K, V>(entries: Seq<(K, V)>, key: K) -> Option<V> {
    let i = key_index(entries, key);
    if i < entries.len() {
        Some(entries[i].1)
    } else {
        None
    }
}

/// Whether no key occurs twice in `entries`.
pub open spec fn distinct_keys<K, V>(entries: Seq<(K, V)>) -> bool {
    keys(entries).no_duplicates()
}

/// `put` keeps the keys distinct, gives `key` its new value and leaves
/// every other key what it had.
pub proof fn lemma_put<K, V>(entries: Seq<(K, V)>, key: K, value: V)
    requires
        distinct_keys(entries),
    ensures
        distinct_keys(put(entries, key, value)),
        lookup(put(entries, key, value), key) == Some(value),
        forall|other: K| other != key ==> lookup(put(entries, key, value), other) == lookup(
            entries,
            other,
        ),
{
    let after = put(entries, key, value);
    let i = key_index(entries, key);
    lemma_position(keys(entries), key);
    if i < entries.len() {
        assert(keys(after) =~= keys(entries));
    } else {
        assert(keys(after) =~= keys(entries).push(key));
        assert forall|a: int, b: int|
            0 <= a < keys(after).len() && 0 <= b < keys(after).len() && a != b implies keys(
            after,
        )[a] != keys(after)[b] by {
            if a == entries.len() {
                assert(keys(entries)[b] != key);
            } else if b == entries.len() {
                assert(keys(entries)[a] != key);
            }
        }
    }
    lemma_position(keys(after), key);
    assert(keys(after)[if i < entries.len() {
        i
    } else {
        entries.len() as int
    }] == key);
    assert forall|other: K| other != key implies lookup(after, other) == lookup(
        entries,
        other,
    ) by {
        lemma_position(keys(entries), other);
        lemma_position(keys(after), other);
        let p = key_index(entries, other);
        let q = key_index(after, other);
        if p < entries.len() {
            assert(keys(after)[p] == other);
            if q < p {
                assert(keys(entries)[q] == other);
            }
        } else {
            if q < after.len() {
                assert(keys(after)[q] == other);
                assert(q < entries.len());
                assert(keys(entries)[q] == other);
            }
        }
    }
}

/// `entries` without the pair of `key`.
pub open spec fn without<K, V>(entries: Seq<(K, V)>, key: K) -> Seq<(K, V)> {
    let i = key_index(entries, key);
    if i < entries.len() {
        entries.remove(i)
    } else {
        entries
    }
}

/// `entries` without the pairs whose value `keep` refuses.
pub open spec fn retain<K, V>(entries: Seq<(K, V)>, keep: spec_fn(V) -> bool) -> Seq<(K, V)>
    decreases entries.len(),
{
    if entries.len() == 0 {
        entries
    } else {
        let kept = retain(entries.drop_last(), keep);
        if keep(entries.last().1) {
            kept.push(entries.last())
        } else {
            kept
        }
    }
}

/// `lookup` finds nothing exactly for the keys that do not occur.
pub proof fn lemma_lookup_none<K, V>(entries: Seq<(K, V)>, key: K)
    ensures
        lookup(entries, key) is None <==> !keys(entries).contains(key),
        lookup(entries, key) matches Some(v) ==> entries.contains((key, v)),
{
    lemma_position(keys(entries), key);
    let i = key_index(entries, key);
    if i < entries.len() {
        assert(keys(entries)[i] == key);
        assert(entries[i] == (key, entries[i].1));
    }
}

/// `without` keeps the keys distinct, forgets `key` and leaves every other
/// key what it had.
pub proof fn lemma_without<K, V>(entries: Seq<(K, V)>, key: K)
    requires
        distinct_keys(entries),
    ensures
        distinct_keys(without(entries, key)),
        lookup(without(entries, key), key) is None,
        forall|other: K| other != key ==> lookup(without(entries, key), other) == lookup(
            entries,
            other,
        ),
{
    let after = without(entries, key);
    let i = key_index(entries, key);
    lemma_position(keys(entries), key);
    if i < entries.len() {
        assert(keys(after) =~= keys(entries).remove(i));
        assert forall|a: int, b: int|
            0 <= a < keys(after).len() && 0 <= b < keys(after).len() && a != b implies keys(
            after,
        )[a] != keys(after)[b] by {
            let a0 = if a < i {
                a
            } else {
                a + 1
            };
            let b0 = if b < i {
                b
            } else {
                b + 1
            };
            assert(keys(after)[a] == keys(entries)[a0]);
            assert(keys(after)[b] == keys(entries)[b0]);
        }
        assert forall|j: int| 0 <= j < keys(after).len() implies keys(after)[j] != key by {
            let j0 = if j < i {
                j
            } else {
                j + 1
            };
            assert(keys(after)[j] == keys(entries)[j0]);
            assert(keys(entries)[i] == key);
        }
        lemma_position_is(keys(after), key, after.len() as int);
        assert forall|other: K| other != key implies lookup(after, other) == lookup(
            entries,
            other,
        ) by {
            lemma_position(keys(entries), other);
            let p = key_index(entries, other);
            if p < entries.len() {
                assert(keys(entries)[p] == other);
                let q = if p < i {
                    p
                } else {
                    p - 1
                };
                assert(keys(after)[q] == other);
                assert forall|j: int| 0 <= j < q implies keys(after)[j] != other by {
                    let j0 = if j < i {
                        j
                    } else {
                        j + 1
                    };
                    assert(keys(after)[j] == keys(entries)[j0]);
                }
                lemma_position_is(keys(after), other, q);
                assert(after[q] == entries[p]);
            } else {
                assert forall|j: int| 0 <= j < keys(after).len() implies keys(after)[j]
                    != other by {
                    let j0 = if j < i {
                        j
                    } else {
                        j + 1
                    };
                    assert(keys(after)[j] == keys(entries)[j0]);
                }
                lemma_position_is(keys(after), other, after.len() as int);
            }
        }
    } else {
        lemma_lookup_none(entries, key);
    }
}

/// What a list with one more pair at its end holds for `key`, where the key
/// of that pair is new.
pub proof fn lemma_lookup_push<K, V>(entries: Seq<(K, V)>, last: (K, V), key: K)
    requires
        !keys(entries).contains(last.0),
    ensures
        lookup(entries.push(last), key) == (if key == last.0 {
            Some(last.1)
        } else {
            lookup(entries, key)
        }),
{
    let longer = entries.push(last);
    assert(keys(longer) =~= keys(entries).push(last.0));
    lemma_position(keys(entries), key);
    let p = key_index(entries, key);
    if p < entries.len() {
        assert(keys(entries)[p] == key);
        assert(keys(entries).contains(key));
        assert forall|j: int| 0 <= j < p implies keys(longer)[j] != key by {
            assert(keys(longer)[j] == keys(entries)[j]);
        }
        assert(keys(longer)[p] == key);
        lemma_position_is(keys(longer), key, p);
    } else {
        assert forall|j: int| 0 <= j < entries.len() implies keys(longer)[j] != key by {
            assert(keys(longer)[j] == keys(entries)[j]);
        }
        if key == last.0 {
            lemma_position_is(keys(longer), key, entries.len() as int);
        } else {
            lemma_position_is(keys(longer), key, longer.len() as int);
        }
    }
}

/// `retain` keeps the keys distinct, and a key has afterwards what it had
/// before, if `keep` accepts that, and nothing otherwise.
pub proof fn lemma_retain<K, V>(entries: Seq<(K, V)>, keep: spec_fn(V) -> bool)
    requires
        distinct_keys(entries),
    ensures
        distinct_keys(retain(entries, keep)),
        forall|key: K| #[trigger]
            lookup(retain(entries, keep), key) == (match lookup(entries, key) {
                Some(v) => if keep(v) {
                    Some(v)
                } else {
                    None
                },
                None => None,
            }),
    decreases entries.len(),
{
    if entries.len() == 0 {
    } else {
        let init = entries.drop_last();
        let last = entries.last();
        assert(keys(init) =~= keys(entries).drop_last());
        assert(distinct_keys(init));
        lemma_retain(init, keep);
        let kept = retain(init, keep);
        assert(entries =~= init.push(last));
        assert(!keys(init).contains(last.0)) by {
            if keys(init).contains(last.0) {
                let j = choose|j: int| 0 <= j < keys(init).len() && keys(init)[j] == last.0;
                assert(keys(entries)[j] == last.0);
                assert(keys(entries)[entries.len() - 1] == last.0);
            }
        }
        lemma_lookup_none(init, last.0);
        assert(lookup(kept, last.0) is None);
        lemma_lookup_none(kept, last.0);
        if keep(last.1) {
            let after = kept.push(last);
            assert(keys(after) =~= keys(kept).push(last.0));
            assert forall|a: int, b: int|
                0 <= a < keys(after).len() && 0 <= b < keys(after).len() && a != b implies keys(
                after,
            )[a] != keys(after)[b] by {
                if a == kept.len() {
                    assert(keys(kept)[b] != last.0);
                } else if b == kept.len() {
                    assert(keys(kept)[a] != last.0);
                }
            }
        }
        assert forall|key: K| #[trigger]
            lookup(retain(entries, keep), key) == (match lookup(entries, key) {
                Some(v) => if keep(v) {
                    Some(v)
                } else {
                    None
                },
                None => None,
            }) by {
            lemma_lookup_push(init, last, key);
            if keep(last.1) {
                lemma_lookup_push(kept, last, key);
            }
        }
    }
}

} // verus!
