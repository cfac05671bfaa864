use vstd::prelude::*;

verus! {

/// The association from keys to values held by a sequence of entries,
/// read front to back; a later entry overrides an earlier one with the
/// same key, so on sequences with distinct keys the association is exact.
pub open spec fn keyed_map<T, V>(
    s: Seq<T>,
    key: spec_fn(T) -> Seq<u8>,
    val: spec_fn(T) -> V,
) -> Map<Seq<u8>, V>
    decreases s.len(),
{
    if s.len() == 0 {
        Map::empty()
    } else {
        keyed_map(s.drop_last(), key, val).insert(key(s.last()), val(s.last()))
    }
}

/// No two entries of the sequence carry the same key.
pub open spec fn unique_keys<T>(s: Seq<T>, key: spec_fn(T) -> Seq<u8>) -> bool {
    forall|i: int, j: int| 0 <= i < j < s.len() ==> key(s[i]) != key(s[j])
}

/// A key is in the association exactly when some entry carries it.
pub proof fn lemma_keyed_map_contains<T, V>(
    s: Seq<T>,
    key: spec_fn(T) -> Seq<u8>,
    val: spec_fn(T) -> V,
    a: Seq<u8>,
)
    ensures
        keyed_map(s, key, val).contains_key(a) <==> (exists|i: int|
            0 <= i < s.len() && key(s[i]) == a),
    decreases s.len(),
{
    if s.len() == 0 {
    } else {
        lemma_keyed_map_contains(s.drop_last(), key, val, a);
        if key(s.last()) == a {
            assert(key(s[s.len() - 1]) == a);
        } else {
            assert(keyed_map(s, key, val).contains_key(a) == keyed_map(
                s.drop_last(),
                key,
                val,
            ).contains_key(a));
            if exists|i: int| 0 <= i < s.len() && key(s[i]) == a {
                let i = choose|i: int| 0 <= i < s.len() && key(s[i]) == a;
                assert(i < s.len() - 1);
                assert(key(s.drop_last()[i]) == a);
            }
        }
    }
}

/// On a sequence with distinct keys, each entry is what the association
/// holds at its key.
pub proof fn lemma_keyed_map_get<T, V>(
    s: Seq<T>,
    key: spec_fn(T) -> Seq<u8>,
    val: spec_fn(T) -> V,
    i: int,
)
    requires
        unique_keys(s, key),
        0 <= i < s.len(),
    ensures
        keyed_map(s, key, val).contains_key(key(s[i])),
        keyed_map(s, key, val)[key(s[i])] == val(s[i]),
    decreases s.len(),
{
    if i == s.len() - 1 {
    } else {
        assert(unique_keys(s.drop_last(), key));
        assert(s.drop_last()[i] == s[i]);
        lemma_keyed_map_get(s.drop_last(), key, val, i);
        assert(key(s[i]) != key(s[s.len() - 1]));
    }
}

/// Replacing the entry at an index by one with the same key updates the
/// association at that key alone.
pub proof fn lemma_keyed_map_update<T, V>(
    s: Seq<T>,
    key: spec_fn(T) -> Seq<u8>,
    val: spec_fn(T) -> V,
    i: int,
    e: T,
)
    requires
        unique_keys(s, key),
        0 <= i < s.len(),
        key(e) == key(s[i]),
    ensures
        keyed_map(s.update(i, e), key, val) == keyed_map(s, key, val).insert(key(e), val(e)),
    decreases s.len(),
{
    let su = s.update(i, e);
    if i == s.len() - 1 {
        assert(su.drop_last() =~= s.drop_last());
        assert(su.last() == e);
        assert(keyed_map(su, key, val) == keyed_map(s.drop_last(), key, val).insert(
            key(e),
            val(e),
        ));
        assert(keyed_map(s.drop_last(), key, val).insert(key(e), val(e)) =~= keyed_map(
            s,
            key,
            val,
        ).insert(key(e), val(e)));
    } else {
        assert(unique_keys(s.drop_last(), key));
        assert(s.drop_last()[i] == s[i]);
        lemma_keyed_map_update(s.drop_last(), key, val, i, e);
        assert(su.drop_last() =~= s.drop_last().update(i, e));
        assert(su.last() == s.last());
        assert(key(s[i]) != key(s[s.len() - 1]));
        assert(keyed_map(su, key, val) == keyed_map(s.drop_last(), key, val).insert(
            key(e),
            val(e),
        ).insert(key(s.last()), val(s.last())));
        assert(keyed_map(s.drop_last(), key, val).insert(key(e), val(e)).insert(
            key(s.last()),
            val(s.last()),
        ) =~= keyed_map(s, key, val).insert(key(e), val(e)));
    }
}

} // verus!
