//! Sequences of values with unique hash keys, read as maps from key to value.
use vstd::prelude::*;
use crate::primitives::B256;

verus! {

/// No two elements of `s` share a key.
pub open spec fn keys_unique<T>(s: Seq<T>, key: spec_fn(T) -> B256) -> bool {
    forall|i: int, j: int|
        0 <= i < s.len() && 0 <= j < s.len() && i != j ==> key(#[trigger] s[i]) != key(#[trigger] s[j])
}

/// The map from key to element; a later element wins over an earlier one.
pub open spec fn to_map<T>(s: Seq<T>, key: spec_fn(T) -> B256) -> Map<B256, T>
    decreases s.len(),
{
    if s.len() == 0 {
        Map::empty()
    } else {
        to_map(s.drop_last(), key).insert(key(s.last()), s.last())
    }
}

pub proof fn lemma_to_map_contains<T>(s: Seq<T>, key: spec_fn(T) -> B256, h: B256)
    ensures
        to_map(s, key).contains_key(h) <==> exists|i: int| 0 <= i < s.len() && key(#[trigger] s[i]) == h,
    decreases s.len(),
{
    if s.len() > 0 {
        lemma_to_map_contains(s.drop_last(), key, h);
        if to_map(s.drop_last(), key).contains_key(h) {
            let i = choose|i: int| 0 <= i < s.drop_last().len() && key(#[trigger] s.drop_last()[i]) == h;
            assert(s[i] == s.drop_last()[i]);
        }
        if exists|i: int| 0 <= i < s.len() && key(#[trigger] s[i]) == h {
            let i = choose|i: int| 0 <= i < s.len() && key(#[trigger] s[i]) == h;
            if i < s.len() - 1 {
                assert(s.drop_last()[i] == s[i]);
            }
        }
    }
}

pub proof fn lemma_to_map_index<T>(s: Seq<T>, key: spec_fn(T) -> B256, k: int)
    requires
        keys_unique(s, key),
        0 <= k < s.len(),
    ensures
        to_map(s, key).contains_key(key(s[k])),
        to_map(s, key)[key(s[k])] == s[k],
    decreases s.len(),
{
    if k < s.len() - 1 {
        let d = s.drop_last();
        assert(d[k] == s[k]);
        assert(keys_unique(d, key)) by {
            assert forall|i: int, j: int|
                0 <= i < d.len() && 0 <= j < d.len() && i != j implies key(#[trigger] d[i]) != key(#[trigger] d[j]) by {
                assert(d[i] == s[i] && d[j] == s[j]);
            }
        }
        lemma_to_map_index(d, key, k);
        assert(key(s[k]) != key(s[s.len() - 1]));
    }
}

pub proof fn lemma_unique_sub<T>(s: Seq<T>, key: spec_fn(T) -> B256, k: int)
    requires
        keys_unique(s, key),
        0 <= k < s.len(),
    ensures
        keys_unique(s.remove(k), key),
        keys_unique(s.drop_last(), key),
{
    let r = s.remove(k);
    assert forall|i: int, j: int|
        0 <= i < r.len() && 0 <= j < r.len() && i != j implies key(#[trigger] r[i]) != key(#[trigger] r[j]) by {
        let si = if i < k { i } else { i + 1 };
        let sj = if j < k { j } else { j + 1 };
        assert(r[i] == s[si] && r[j] == s[sj]);
    }
    let d = s.drop_last();
    assert forall|i: int, j: int|
        0 <= i < d.len() && 0 <= j < d.len() && i != j implies key(#[trigger] d[i]) != key(#[trigger] d[j]) by {
        assert(d[i] == s[i] && d[j] == s[j]);
    }
}

pub proof fn lemma_to_map_remove<T>(s: Seq<T>, key: spec_fn(T) -> B256, k: int)
    requires
        keys_unique(s, key),
        0 <= k < s.len(),
    ensures
        keys_unique(s.remove(k), key),
        to_map(s.remove(k), key) == to_map(s, key).remove(key(s[k])),
    decreases s.len(),
{
    lemma_unique_sub(s, key, k);
    let d = s.drop_last();
    if k == s.len() - 1 {
        assert(s.remove(k) == d);
        lemma_to_map_contains(d, key, key(s[k]));
        if to_map(d, key).contains_key(key(s[k])) {
            let i = choose|i: int| 0 <= i < d.len() && key(#[trigger] d[i]) == key(s[k]);
            assert(d[i] == s[i]);
        }
        assert(to_map(s, key).remove(key(s[k])) =~= to_map(d, key));
    } else {
        lemma_to_map_remove(d, key, k);
        assert(s.remove(k).drop_last() == d.remove(k));
        assert(s.remove(k).last() == s.last());
        assert(d[k] == s[k]);
        assert(key(s[k]) != key(s.last()));
        assert(to_map(s.remove(k), key) =~= to_map(s, key).remove(key(s[k])));
    }
}

/// With unique keys, the map has one key per element.
pub proof fn lemma_to_map_len<T>(s: Seq<T>, key: spec_fn(T) -> B256)
    requires
        keys_unique(s, key),
    ensures
        to_map(s, key).dom().finite(),
        to_map(s, key).dom().len() == s.len(),
    decreases s.len(),
{
    if s.len() > 0 {
        lemma_unique_sub(s, key, 0);
        lemma_to_map_len(s.drop_last(), key);
        lemma_to_map_contains(s.drop_last(), key, key(s.last()));
        if to_map(s.drop_last(), key).contains_key(key(s.last())) {
            let i = choose|i: int| 0 <= i < s.drop_last().len() && key(#[trigger] s.drop_last()[i]) == key(s.last());
            assert(s.drop_last()[i] == s[i]);
        }
    }
}

pub proof fn lemma_unique_push<T>(s: Seq<T>, key: spec_fn(T) -> B256, x: T)
    requires
        keys_unique(s, key),
        !to_map(s, key).contains_key(key(x)),
    ensures
        keys_unique(s.push(x), key),
        to_map(s.push(x), key) == to_map(s, key).insert(key(x), x),
{
    let p = s.push(x);
    assert(p.drop_last() == s);
    lemma_to_map_contains(s, key, key(x));
    assert forall|i: int, j: int|
        0 <= i < p.len() && 0 <= j < p.len() && i != j implies key(#[trigger] p[i]) != key(#[trigger] p[j]) by {
        if i < s.len() {
            assert(p[i] == s[i]);
        }
        if j < s.len() {
            assert(p[j] == s[j]);
        }
    }
}

} // verus!
