//! A sequence of keyed entries read as a map.
//!
//! The session tables are short vectors searched from the front. Their
//! contracts speak of maps; this module says which map a sequence of
//! `(key, value)` pairs stands for, and what pushing and updating do to it.

use vstd::prelude::*;

verus! {

/// No key occurs twice.
pub open spec fn distinct_keys<K, V>(pairs: Seq<(K, V)>) -> bool {
    forall|i: int, j: int| 0 <= i < j < pairs.len() ==> pairs[i].0 != pairs[j].0
}

/// Some entry has the key.
pub open spec fn has_key<K, V>(pairs: Seq<(K, V)>, key: K) -> bool {
    exists|i: int| 0 <= i < pairs.len() && pairs[i].0 == key
}

/// An index at which the key stands, where there is one.
pub open spec fn position_of<K, V>(pairs: Seq<(K, V)>, key: K) -> int {
    choose|i: int| 0 <= i < pairs.len() && pairs[i].0 == key
}

/// The map from each key that occurs to the value beside it.
pub open spec fn as_map<K, V>(pairs: Seq<(K, V)>) -> Map<K, V> {
    Map::new(|key: K| has_key(pairs, key), |key: K| pairs[position_of(pairs, key)].1)
}

/// With distinct keys, the entry at `i` is what the map holds under its key.
pub proof fn lemma_entry_in_map<K, V>(pairs: Seq<(K, V)>, i: int)
    requires
        distinct_keys(pairs),
        0 <= i < pairs.len(),
    ensures
        has_key(pairs, pairs[i].0),
        as_map(pairs).dom().contains(pairs[i].0),
        as_map(pairs)[pairs[i].0] == pairs[i].1,
{
    let key = pairs[i].0;
    assert(has_key(pairs, key));
    let j = position_of(pairs, key);
    assert(0 <= j < pairs.len() && pairs[j].0 == key);
    assert(j == i);
}

/// No entry has the key exactly when the map's domain lacks it.
pub proof fn lemma_absent_key<K, V>(pairs: Seq<(K, V)>, key: K)
    ensures
        as_map(pairs).dom().contains(key) <==> has_key(pairs, key),
        (forall|i: int| 0 <= i < pairs.len() ==> (#[trigger] pairs[i]).0 != key) ==> !has_key(
            pairs,
            key,
        ),
{
}

/// The empty sequence is the empty map.
pub proof fn lemma_empty_is_empty<K, V>(pairs: Seq<(K, V)>)
    requires
        pairs.len() == 0,
    ensures
        distinct_keys(pairs),
        as_map(pairs) == Map::<K, V>::empty(),
{
    assert(as_map(pairs) =~= Map::<K, V>::empty());
}

/// Pushing an entry under a new key inserts it.
pub proof fn lemma_push_is_insert<K, V>(pairs: Seq<(K, V)>, key: K, value: V)
    requires
        distinct_keys(pairs),
        !has_key(pairs, key),
    ensures
        distinct_keys(pairs.push((key, value))),
        as_map(pairs.push((key, value))) == as_map(pairs).insert(key, value),
{
    let grown = pairs.push((key, value));
    assert forall|i: int, j: int| 0 <= i < j < grown.len() implies grown[i].0 != grown[j].0 by {
        if j < pairs.len() {
            assert(grown[i] == pairs[i] && grown[j] == pairs[j]);
        } else {
            assert(grown[i] == pairs[i]);
            assert(grown[j].0 == key);
        }
    }
    assert forall|k: K| has_key(grown, k) <==> (k == key || has_key(pairs, k)) by {
        if has_key(grown, k) {
            let i = position_of(grown, k);
            if i < pairs.len() {
                assert(pairs[i].0 == k);
            }
        }
        if k == key {
            assert(grown[pairs.len() as int].0 == k);
        }
        if has_key(pairs, k) {
            let i = position_of(pairs, k);
            assert(grown[i].0 == k);
        }
    }
    assert forall|k: K| has_key(grown, k) implies #[trigger] as_map(grown)[k] == as_map(
        pairs,
    ).insert(key, value)[k] by {
        if k == key {
            lemma_entry_in_map(grown, pairs.len() as int);
        } else {
            let i = position_of(pairs, k);
            assert(grown[i] == pairs[i]);
            lemma_entry_in_map(grown, i);
            lemma_entry_in_map(pairs, i);
        }
    }
    assert(as_map(grown) =~= as_map(pairs).insert(key, value));
}

/// Replacing the value of the entry at `i` inserts the new value under its key.
pub proof fn lemma_update_is_insert<K, V>(pairs: Seq<(K, V)>, i: int, value: V)
    requires
        distinct_keys(pairs),
        0 <= i < pairs.len(),
    ensures
        distinct_keys(pairs.update(i, (pairs[i].0, value))),
        as_map(pairs.update(i, (pairs[i].0, value))) == as_map(pairs).insert(pairs[i].0, value),
{
    let key = pairs[i].0;
    let changed = pairs.update(i, (key, value));
    assert forall|a: int, b: int| 0 <= a < b < changed.len() implies changed[a].0
        != changed[b].0 by {
        assert(changed[a].0 == pairs[a].0);
        assert(changed[b].0 == pairs[b].0);
    }
    assert forall|k: K| has_key(changed, k) <==> has_key(pairs, k) by {
        if has_key(changed, k) {
            let j = position_of(changed, k);
            assert(pairs[j].0 == k);
        }
        if has_key(pairs, k) {
            let j = position_of(pairs, k);
            assert(changed[j].0 == k);
        }
    }
    lemma_entry_in_map(pairs, i);
    assert forall|k: K| has_key(changed, k) implies #[trigger] as_map(changed)[k] == as_map(
        pairs,
    ).insert(key, value)[k] by {
        let j = position_of(pairs, k);
        assert(changed[j].0 == k);
        lemma_entry_in_map(changed, j);
        lemma_entry_in_map(pairs, j);
    }
    assert(as_map(changed) =~= as_map(pairs).insert(key, value));
}

} // verus!
