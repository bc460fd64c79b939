//! Association lists: a sequence of keys beside a sequence of values, read as a map.
//!
//! The registry, the connection manager and the settings of a configuration keep
//! their entries in vectors with distinct keys; this module says what map such
//! a pair of sequences stands for, and how the map changes when an entry is
//! replaced, appended or removed.
use vstd::prelude::*;

verus! {

/// The position of `k` among `keys` (meaningful when `keys` contains `k`).
pub open spec fn key_index<K>(keys: Seq<K>, k: K) -> int {
    choose|i: int| 0 <= i < keys.len() && keys[i] == k
}

/// The map that pairs each key with the value at the same position.
pub open spec fn assoc_map<K, V>(keys: Seq<K>, vals: Seq<V>) -> Map<K, V> {
    Map::new(|k: K| keys.contains(k), |k: K| vals[key_index(keys, k)])
}

/// With distinct keys, the map holds each key and gives back the value at its position.
pub proof fn lemma_assoc_index<K, V>(keys: Seq<K>, vals: Seq<V>, i: int)
    requires
        keys.no_duplicates(),
        0 <= i < keys.len(),
    ensures
        assoc_map(keys, vals).contains_key(keys[i]),
        assoc_map(keys, vals)[keys[i]] == vals[i],
        key_index(keys, keys[i]) == i,
{
    assert(keys.contains(keys[i]));
    let j = key_index(keys, keys[i]);
    assert(0 <= j < keys.len() && keys[j] == keys[i]);
}

/// Every key of the map sits at some position, and the map gives the value there.
pub proof fn lemma_assoc_all<K, V>(keys: Seq<K>, vals: Seq<V>)
    requires
        keys.no_duplicates(),
    ensures
        forall|i: int|
            0 <= i < keys.len() ==> #[trigger] assoc_map(keys, vals).contains_key(keys[i])
                && assoc_map(keys, vals)[keys[i]] == vals[i],
        forall|k: K| #[trigger]
            assoc_map(keys, vals).contains_key(k) <==> keys.contains(k),
{
    assert forall|i: int| 0 <= i < keys.len() implies #[trigger] assoc_map(
        keys,
        vals,
    ).contains_key(keys[i]) && assoc_map(keys, vals)[keys[i]] == vals[i] by {
        lemma_assoc_index(keys, vals, i);
    }
}

/// Appending a fresh key inserts it into the map.
pub proof fn lemma_assoc_push<K, V>(keys: Seq<K>, vals: Seq<V>, k: K, v: V)
    requires
        keys.no_duplicates(),
        keys.len() == vals.len(),
        !keys.contains(k),
    ensures
        keys.push(k).no_duplicates(),
        assoc_map(keys.push(k), vals.push(v)) == assoc_map(keys, vals).insert(k, v),
{
    let nk = keys.push(k);
    let nv = vals.push(v);
    assert forall|i: int, j: int|
        0 <= i < nk.len() && 0 <= j < nk.len() && i != j implies nk[i] != nk[j] by {
        if i == keys.len() {
            assert(keys.contains(nk[j]));
        } else if j == keys.len() {
            assert(keys.contains(nk[i]));
        }
    }
    let m1 = assoc_map(nk, nv);
    let m2 = assoc_map(keys, vals).insert(k, v);
    assert forall|x: K| #[trigger] m1.contains_key(x) <==> m2.contains_key(x) by {
        if keys.contains(x) {
            let i = choose|i: int| 0 <= i < keys.len() && keys[i] == x;
            assert(nk[i] == x);
        }
        if nk.contains(x) && x != k {
            let i = choose|i: int| 0 <= i < nk.len() && nk[i] == x;
            assert(keys[i] == x);
        }
        if x == k {
            assert(nk[keys.len() as int] == k);
        }
    }
    assert forall|x: K| #[trigger] m1.contains_key(x) implies m1[x] == m2[x] by {
        let i = choose|i: int| 0 <= i < nk.len() && nk[i] == x;
        lemma_assoc_index(nk, nv, i);
        if i < keys.len() {
            assert(keys[i] == x);
            lemma_assoc_index(keys, vals, i);
        }
    }
    assert(m1 =~= m2);
}

/// Replacing the value at a position (its key unchanged) updates the map at that key.
pub proof fn lemma_assoc_update<K, V>(keys: Seq<K>, vals: Seq<V>, i: int, v: V)
    requires
        keys.no_duplicates(),
        keys.len() == vals.len(),
        0 <= i < keys.len(),
    ensures
        assoc_map(keys, vals.update(i, v)) == assoc_map(keys, vals).insert(keys[i], v),
{
    let nv = vals.update(i, v);
    let m1 = assoc_map(keys, nv);
    let m2 = assoc_map(keys, vals).insert(keys[i], v);
    assert forall|x: K| #[trigger] m1.contains_key(x) <==> m2.contains_key(x) by {
        if x == keys[i] {
            assert(keys.contains(x));
        }
    }
    assert forall|x: K| #[trigger] m1.contains_key(x) implies m1[x] == m2[x] by {
        let j = choose|j: int| 0 <= j < keys.len() && keys[j] == x;
        lemma_assoc_index(keys, nv, j);
        lemma_assoc_index(keys, vals, j);
    }
    assert(m1 =~= m2);
}

/// Removing the entry at a position removes its key from the map.
pub proof fn lemma_assoc_remove<K, V>(keys: Seq<K>, vals: Seq<V>, i: int)
    requires
        keys.no_duplicates(),
        keys.len() == vals.len(),
        0 <= i < keys.len(),
    ensures
        keys.remove(i).no_duplicates(),
        assoc_map(keys.remove(i), vals.remove(i)) == assoc_map(keys, vals).remove(keys[i]),
{
    let nk = keys.remove(i);
    let nv = vals.remove(i);
    let pos = |j: int| if j < i { j } else { j + 1 };
    assert forall|a: int| 0 <= a < nk.len() implies #[trigger] nk[a] == keys[pos(a)] && nv[a]
        == vals[pos(a)] by {}
    assert forall|a: int, b: int|
        0 <= a < nk.len() && 0 <= b < nk.len() && a != b implies nk[a] != nk[b] by {
        assert(nk[a] == keys[pos(a)]);
        assert(nk[b] == keys[pos(b)]);
    }
    let m1 = assoc_map(nk, nv);
    let m2 = assoc_map(keys, vals).remove(keys[i]);
    assert forall|x: K| #[trigger] m1.contains_key(x) <==> m2.contains_key(x) by {
        if nk.contains(x) {
            let a = choose|a: int| 0 <= a < nk.len() && nk[a] == x;
            assert(nk[a] == keys[pos(a)]);
            assert(keys.contains(x));
        }
        if keys.contains(x) && x != keys[i] {
            let j = choose|j: int| 0 <= j < keys.len() && keys[j] == x;
            let a = if j < i { j } else { j - 1 };
            assert(nk[a] == keys[pos(a)]);
            assert(nk.contains(x));
        }
    }
    assert forall|x: K| #[trigger] m1.contains_key(x) implies m1[x] == m2[x] by {
        let a = choose|a: int| 0 <= a < nk.len() && nk[a] == x;
        assert(nk[a] == keys[pos(a)]);
        lemma_assoc_index(nk, nv, a);
        lemma_assoc_index(keys, vals, pos(a));
    }
    assert(m1 =~= m2);
}

} // verus!
