//! Association lists: sequences of key/value pairs with distinct keys, read as maps.

use vstd::prelude::*;

verus! {

/// No key occurs twice.
pub open spec fn keys_unique<K, V>(s: Seq<(K, V)>) -> bool {
    forall|i: int, j: int| 0 <= i < s.len() && 0 <= j < s.len() && i != j ==> s[i].0 != s[j].0
}

/// Some pair has key `k`.
pub open spec fn assoc_has<K, V>(s: Seq<(K, V)>, k: K) -> bool {
    exists|i: int| 0 <= i < s.len() && s[i].0 == k
}

/// Position of the pair with key `k`.
pub open spec fn assoc_index<K, V>(s: Seq<(K, V)>, k: K) -> int {
    choose|i: int| 0 <= i < s.len() && s[i].0 == k
}

/// The map an association list stands for.
pub open spec fn assoc_map<K, V>(s: Seq<(K, V)>) -> Map<K, V> {
    Map::new(|k: K| assoc_has(s, k), |k: K| s[assoc_index(s, k)].1)
}

pub proof fn lemma_assoc_get<K, V>(s: Seq<(K, V)>, i: int)
    requires
        keys_unique(s),
        0 <= i < s.len(),
    ensures
        assoc_map(s).contains_key(s[i].0),
        assoc_map(s)[s[i].0] == s[i].1,
{
    let k = s[i].0;
    assert(assoc_has(s, k));
    let j = assoc_index(s, k);
    assert(j == i);
}

pub proof fn lemma_assoc_absent<K, V>(s: Seq<(K, V)>, k: K)
    requires
        forall|i: int| 0 <= i < s.len() ==> s[i].0 != k,
    ensures
        !assoc_map(s).contains_key(k),
{
}

pub proof fn lemma_assoc_update<K, V>(s: Seq<(K, V)>, i: int, v: V)
    requires
        keys_unique(s),
        0 <= i < s.len(),
    ensures
        keys_unique(s.update(i, (s[i].0, v))),
        assoc_map(s.update(i, (s[i].0, v))) == assoc_map(s).insert(s[i].0, v),
{
    let t = s.update(i, (s[i].0, v));
    let k0 = s[i].0;
    assert forall|k: K| #[trigger] assoc_has(t, k) == assoc_has(s, k) by {
        if assoc_has(s, k) {
            let j = assoc_index(s, k);
            assert(t[j].0 == k);
        }
        if assoc_has(t, k) {
            let j = assoc_index(t, k);
            assert(s[j].0 == k);
        }
    }
    assert forall|k: K| assoc_has(t, k) implies #[trigger] assoc_map(t)[k] == assoc_map(
        s,
    ).insert(k0, v)[k] by {
        let j = assoc_index(t, k);
        let j2 = assoc_index(s, k);
        assert(s[j].0 == k);
        assert(j == j2);
    }
    assert(assoc_map(t) =~= assoc_map(s).insert(k0, v));
}

pub proof fn lemma_assoc_push<K, V>(s: Seq<(K, V)>, k: K, v: V)
    requires
        keys_unique(s),
        !assoc_has(s, k),
    ensures
        keys_unique(s.push((k, v))),
        assoc_map(s.push((k, v))) == assoc_map(s).insert(k, v),
{
    let t = s.push((k, v));
    assert forall|q: K| #[trigger] assoc_has(t, q) == (assoc_has(s, q) || q == k) by {
        if assoc_has(s, q) {
            let j = assoc_index(s, q);
            assert(t[j].0 == q);
        }
        if q == k {
            assert(t[s.len() as int].0 == q);
        }
        if assoc_has(t, q) && q != k {
            let j = assoc_index(t, q);
            assert(j < s.len());
            assert(s[j].0 == q);
        }
    }
    assert forall|q: K| assoc_has(t, q) implies #[trigger] assoc_map(t)[q] == assoc_map(
        s,
    ).insert(k, v)[q] by {
        let j = assoc_index(t, q);
        if q == k {
            assert(j == s.len());
        } else {
            let j2 = assoc_index(s, q);
            assert(t[j2].0 == q);
            assert(j == j2);
        }
    }
    assert(assoc_map(t) =~= assoc_map(s).insert(k, v));
}

} // verus!
