//! Keyed row sequences viewed as maps.
//!
//! Every relation of the store is kept as a sequence of rows whose keys are
//! pairwise distinct.  Its logical content is the map from key to row; a
//! later row with the same key wins, which is exactly the insert-or-replace
//! write discipline of the store.  This module defines that reading and
//! proves how it moves under the sequence edits the store performs.

use vstd::prelude::*;

verus! {

/// The map described by a sequence of rows, keyed by `key`.  On duplicate
/// keys the later row wins.
pub open spec fn seq_to_map<V>(s: Seq<V>, key: spec_fn(V) -> i64) -> Map<i64, V>
    decreases s.len(),
{
    if s.len() == 0 {
        Map::<i64, V>::empty()
    } else {
        seq_to_map(s.drop_last(), key).insert(key(s.last()), s.last())
    }
}

/// No two rows of `s` share a key.
pub open spec fn unique_keys<V>(s: Seq<V>, key: spec_fn(V) -> i64) -> bool {
    forall|i: int, j: int|
        #![trigger s[i], s[j]]
        0 <= i < j < s.len() ==> key(s[i]) != key(s[j])
}

/// A key is in the map exactly when some row of the sequence carries it.
pub proof fn lemma_seq_to_map_domain<V>(s: Seq<V>, key: spec_fn(V) -> i64)
    ensures
        forall|k: i64| #[trigger]
            seq_to_map(s, key).contains_key(k) <==> exists|i: int|
                0 <= i < s.len() && key(#[trigger] s[i]) == k,
    decreases s.len(),
{
    if s.len() > 0 {
        let s0 = s.drop_last();
        lemma_seq_to_map_domain(s0, key);
        assert(forall|i: int| 0 <= i < s0.len() ==> #[trigger] s0[i] == s[i]);
        assert forall|k: i64| #[trigger]
            seq_to_map(s, key).contains_key(k) implies exists|i: int|
            0 <= i < s.len() && key(#[trigger] s[i]) == k by {
            if k == key(s.last()) {
                assert(key(s[s.len() - 1]) == k);
            } else {
                assert(seq_to_map(s0, key).contains_key(k));
                let i = choose|i: int| 0 <= i < s0.len() && key(#[trigger] s0[i]) == k;
                assert(key(s[i]) == k);
            }
        }
        assert forall|k: i64|
            exists|i: int|
                0 <= i < s.len() && key(#[trigger] s[i]) == k implies #[trigger]
            seq_to_map(s, key).contains_key(k) by {
            let i = choose|i: int| 0 <= i < s.len() && key(#[trigger] s[i]) == k;
            if i < s.len() - 1 {
                assert(key(s0[i]) == k);
                assert(seq_to_map(s0, key).contains_key(k));
            }
        }
    }
}

/// A key that appears on no row is absent from the map.
pub proof fn lemma_seq_to_map_absent<V>(s: Seq<V>, key: spec_fn(V) -> i64, k: i64)
    requires
        forall|i: int| 0 <= i < s.len() ==> key(#[trigger] s[i]) != k,
    ensures
        !seq_to_map(s, key).contains_key(k),
{
    lemma_seq_to_map_domain(s, key);
}

/// With distinct keys, the map sends each row's key to that row.
pub proof fn lemma_seq_to_map_index<V>(s: Seq<V>, key: spec_fn(V) -> i64, i: int)
    requires
        unique_keys(s, key),
        0 <= i < s.len(),
    ensures
        seq_to_map(s, key).contains_key(key(s[i])),
        seq_to_map(s, key)[key(s[i])] == s[i],
    decreases s.len(),
{
    if i == s.len() - 1 {
    } else {
        assert(unique_keys(s.drop_last(), key)) by {
            assert(forall|a: int, b: int|
                0 <= a < b < s.drop_last().len() ==> s.drop_last()[a] == s[a]
                    && s.drop_last()[b] == s[b]);
        }
        assert(s.drop_last()[i] == s[i]);
        lemma_seq_to_map_index(s.drop_last(), key, i);
        assert(key(s[i]) != key(s[s.len() - 1]));
    }
}

/// Replacing the row at `i` by a row with the same key is an insert on the
/// map, and keeps the keys distinct.
pub proof fn lemma_seq_to_map_update<V>(s: Seq<V>, key: spec_fn(V) -> i64, i: int, v: V)
    requires
        unique_keys(s, key),
        0 <= i < s.len(),
        key(v) == key(s[i]),
    ensures
        seq_to_map(s.update(i, v), key) == seq_to_map(s, key).insert(key(v), v),
        unique_keys(s.update(i, v), key),
    decreases s.len(),
{
    let s2 = s.update(i, v);
    assert(unique_keys(s2, key)) by {
        assert(forall|a: int| 0 <= a < s.len() && a != i ==> s2[a] == s[a]);
    }
    if i == s.len() - 1 {
        assert(s2.drop_last() =~= s.drop_last());
        assert(s2.last() == v);
        assert(seq_to_map(s2, key) =~= seq_to_map(s, key).insert(key(v), v));
    } else {
        assert(unique_keys(s.drop_last(), key)) by {
            assert(forall|a: int|
                0 <= a < s.drop_last().len() ==> s.drop_last()[a] == s[a]);
        }
        assert(s.drop_last()[i] == s[i]);
        lemma_seq_to_map_update(s.drop_last(), key, i, v);
        assert(s2.drop_last() =~= s.drop_last().update(i, v));
        assert(s2.last() == s.last());
        assert(key(v) != key(s[s.len() - 1]));
        assert(seq_to_map(s2, key) =~= seq_to_map(s, key).insert(key(v), v));
    }
}

/// Appending a row with a fresh key is an insert on the map, and keeps the
/// keys distinct.
pub proof fn lemma_seq_to_map_push<V>(s: Seq<V>, key: spec_fn(V) -> i64, v: V)
    requires
        unique_keys(s, key),
        forall|i: int| 0 <= i < s.len() ==> key(#[trigger] s[i]) != key(v),
    ensures
        seq_to_map(s.push(v), key) == seq_to_map(s, key).insert(key(v), v),
        unique_keys(s.push(v), key),
{
    assert(s.push(v).drop_last() =~= s);
    assert(s.push(v).last() == v);
    assert(forall|a: int| 0 <= a < s.len() ==> s.push(v)[a] == s[a]);
}

/// Appending any row is an insert on the map, whatever the keys; a later
/// duplicate simply wins.
pub proof fn lemma_seq_to_map_push_any<V>(s: Seq<V>, key: spec_fn(V) -> i64, v: V)
    ensures
        seq_to_map(s.push(v), key) == seq_to_map(s, key).insert(key(v), v),
{
    assert(s.push(v).drop_last() =~= s);
    assert(s.push(v).last() == v);
}

/// Removing the row at `i` removes its key from the map, and keeps the keys
/// distinct.
pub proof fn lemma_seq_to_map_remove<V>(s: Seq<V>, key: spec_fn(V) -> i64, i: int)
    requires
        unique_keys(s, key),
        0 <= i < s.len(),
    ensures
        seq_to_map(s.remove(i), key) == seq_to_map(s, key).remove(key(s[i])),
        unique_keys(s.remove(i), key),
    decreases s.len(),
{
    let s2 = s.remove(i);
    assert(unique_keys(s2, key)) by {
        assert(forall|a: int|
            0 <= a < s2.len() ==> s2[a] == (if a < i {
                s[a]
            } else {
                s[a + 1]
            }));
    }
    assert(unique_keys(s.drop_last(), key)) by {
        assert(forall|a: int| 0 <= a < s.drop_last().len() ==> s.drop_last()[a] == s[a]);
    }
    if i == s.len() - 1 {
        assert(s2 =~= s.drop_last());
        assert(forall|a: int|
            0 <= a < s.drop_last().len() ==> key(#[trigger] s.drop_last()[a]) != key(s[i]));
        lemma_seq_to_map_absent(s.drop_last(), key, key(s[i]));
        assert(seq_to_map(s2, key) =~= seq_to_map(s, key).remove(key(s[i])));
    } else {
        assert(s.drop_last()[i] == s[i]);
        lemma_seq_to_map_remove(s.drop_last(), key, i);
        assert(s2.drop_last() =~= s.drop_last().remove(i));
        assert(s2.last() == s.last());
        assert(key(s[i]) != key(s[s.len() - 1]));
        assert(seq_to_map(s2, key) =~= seq_to_map(s, key).remove(key(s[i])));
    }
}

/// Removing an absent key leaves a map unchanged.
pub proof fn lemma_map_remove_absent<K, V>(m: Map<K, V>, k: K)
    requires
        !m.contains_key(k),
    ensures
        m.remove(k) == m,
{
    assert(m.remove(k) =~= m);
}

} // verus!
