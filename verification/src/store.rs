//! Entry sequences with distinct keys, abstracted as maps.
//!
//! Both engine stores keep their records in a vector of key/value pairs whose
//! keys never repeat. Contracts speak of the `Map` such a sequence stands
//! for; the lemmas here tie the concrete sequence operations (push, update in
//! place, linear search) to the corresponding map operations.
use vstd::prelude::*;

verus! {

/// The keys of `s` are pairwise distinct.
pub open spec fn distinct_keys<K, V>(s: Seq<(K, V)>) -> bool {
    forall|i: int, j: int| 0 <= i < j < s.len() ==> (#[trigger] s[i]).0 != (#[trigger] s[j]).0
}

/// Some entry of `s` carries the key `k`.
pub open spec fn has_key<K, V>(s: Seq<(K, V)>, k: K) -> bool {
    exists|i: int| 0 <= i < s.len() && (#[trigger] s[i]).0 == k
}

/// The map that the entry sequence `s` stands for. When a key repeats the
/// later entry wins, which never happens under `distinct_keys`.
pub open spec fn kv_map<K, V>(s: Seq<(K, V)>) -> Map<K, V>
    decreases s.len(),
{
    if s.len() == 0 {
        Map::empty()
    } else {
        kv_map(s.drop_last()).insert(s.last().0, s.last().1)
    }
}

/// A key is in the abstract map exactly when some entry carries it.
pub proof fn lemma_kv_map_domain<K, V>(s: Seq<(K, V)>, k: K)
    ensures
        kv_map(s).contains_key(k) <==> has_key(s, k),
    decreases s.len(),
{
    if s.len() > 0 {
        lemma_kv_map_domain(s.drop_last(), k);
        if s.last().0 == k {
            assert((s[s.len() - 1]).0 == k);
        } else {
            if has_key(s.drop_last(), k) {
                let i = choose|i: int|
                    0 <= i < s.drop_last().len() && (#[trigger] s.drop_last()[i]).0 == k;
                assert((s[i]).0 == k);
            }
            if has_key(s, k) {
                let i = choose|i: int| 0 <= i < s.len() && (#[trigger] s[i]).0 == k;
                assert((s.drop_last()[i]).0 == k);
            }
        }
    }
}

/// Under distinct keys, the abstract map sends each entry's key to its value.
pub proof fn lemma_kv_map_index<K, V>(s: Seq<(K, V)>, i: int)
    requires
        distinct_keys(s),
        0 <= i < s.len(),
    ensures
        kv_map(s).contains_key((s[i]).0),
        kv_map(s)[(s[i]).0] == (s[i]).1,
    decreases s.len(),
{
    if i < s.len() - 1 {
        assert(distinct_keys(s.drop_last()));
        assert(s.drop_last()[i] == s[i]);
        lemma_kv_map_index(s.drop_last(), i);
        assert(s.last().0 != (s[i]).0);
    }
}

/// Appending an entry with a fresh key inserts it into the abstract map and
/// keeps the keys distinct.
pub proof fn lemma_kv_map_push<K, V>(s: Seq<(K, V)>, k: K, v: V)
    requires
        distinct_keys(s),
        !has_key(s, k),
    ensures
        kv_map(s.push((k, v))) == kv_map(s).insert(k, v),
        distinct_keys(s.push((k, v))),
{
    assert(s.push((k, v)).drop_last() =~= s);
    assert(s.push((k, v)).last() == (k, v));
    let s2 = s.push((k, v));
    assert forall|x: int, y: int| 0 <= x < y < s2.len() implies (s2[x]).0 != (s2[y]).0 by {
        if y == s.len() {
            assert(s2[x] == s[x]);
            if (s[x]).0 == k {
                assert(has_key(s, k));
            }
        } else {
            assert(s2[x] == s[x]);
            assert(s2[y] == s[y]);
        }
    }
}

/// Overwriting the entry at `i` in place, keeping its key, updates that key's
/// value in the abstract map and keeps the keys distinct.
pub proof fn lemma_kv_map_update<K, V>(s: Seq<(K, V)>, i: int, k: K, v: V)
    requires
        distinct_keys(s),
        0 <= i < s.len(),
        (s[i]).0 == k,
    ensures
        kv_map(s.update(i, (k, v))) == kv_map(s).insert(k, v),
        distinct_keys(s.update(i, (k, v))),
    decreases s.len(),
{
    let s2 = s.update(i, (k, v));
    assert forall|x: int, y: int| 0 <= x < y < s2.len() implies (s2[x]).0 != (s2[y]).0 by {
        assert((s[x]).0 != (s[y]).0);
    }
    if i == s.len() - 1 {
        assert(s2.drop_last() =~= s.drop_last());
        assert(kv_map(s2) == kv_map(s.drop_last()).insert(k, v));
        assert(kv_map(s) == kv_map(s.drop_last()).insert(k, (s[i]).1));
        assert(kv_map(s.drop_last()).insert(k, (s[i]).1).insert(k, v) =~= kv_map(
            s.drop_last(),
        ).insert(k, v));
    } else {
        assert(distinct_keys(s.drop_last()));
        assert(s.drop_last()[i] == s[i]);
        lemma_kv_map_update(s.drop_last(), i, k, v);
        assert(s2.drop_last() =~= s.drop_last().update(i, (k, v)));
        assert(s2.last() == s.last());
        assert(kv_map(s2) == kv_map(s.drop_last()).insert(k, v).insert(
            s.last().0,
            s.last().1,
        ));
        assert(s.last().0 != k);
        assert(kv_map(s.drop_last()).insert(k, v).insert(s.last().0, s.last().1) =~= kv_map(
            s.drop_last(),
        ).insert(s.last().0, s.last().1).insert(k, v));
        assert(kv_map(s) == kv_map(s.drop_last()).insert(s.last().0, s.last().1));
    }
}

} // verus!
