use vstd::prelude::*;

verus! {

/// No two pairs carry the same key.
pub open spec fn keys_unique<K, V>(s: Seq<(K, V)>) -> bool {
    forall|i: int, j: int| 0 <= i < j < s.len() ==> s[i].0 != s[j].0
}

/// Whether some pair carries the key `k`.
pub open spec fn has_key<K, V>(s: Seq<(K, V)>, k: K) -> bool {
    exists|i: int| 0 <= i < s.len() && s[i].0 == k
}

/// Index of the first pair carrying the key `k`.
pub open spec fn key_index<K, V>(s: Seq<(K, V)>, k: K) -> int
    decreases s.len(),
{
    if s.len() == 0 {
        0
    } else if s[0].0 == k {
        0
    } else {
        1 + key_index(s.drop_first(), k)
    }
}

/// The map a pair sequence denotes; a later pair shadows an earlier one
/// with the same key.
pub open spec fn map_of<K, V>(s: Seq<(K, V)>) -> Map<K, V>
    decreases s.len(),
{
    if s.len() == 0 {
        Map::empty()
    } else {
        map_of(s.drop_last()).insert(s.last().0, s.last().1)
    }
}

/// The first index carrying `k` is in bounds, carries `k`, and nothing
/// before it does.
pub proof fn lemma_key_index<K, V>(s: Seq<(K, V)>, k: K)
    requires
        has_key(s, k),
    ensures
        0 <= key_index(s, k) < s.len(),
        s[key_index(s, k)].0 == k,
        forall|j: int| 0 <= j < key_index(s, k) ==> s[j].0 != k,
    decreases s.len(),
{
    if s.len() == 0 {
    } else if s[0].0 == k {
    } else {
        assert(has_key(s.drop_first(), k)) by {
            let i = choose|i: int| 0 <= i < s.len() && s[i].0 == k;
            assert(s.drop_first()[i - 1].0 == k);
        }
        lemma_key_index(s.drop_first(), k);
        assert forall|j: int| 0 <= j < key_index(s, k) implies s[j].0 != k by {
            if j > 0 {
                assert(s.drop_first()[j - 1].0 == s[j].0);
            }
        }
    }
}

/// A key is in the denoted map exactly when some pair carries it.
pub proof fn lemma_map_of_contains<K, V>(s: Seq<(K, V)>, k: K)
    ensures
        map_of(s).contains_key(k) <==> has_key(s, k),
    decreases s.len(),
{
    if s.len() == 0 {
    } else {
        lemma_map_of_contains(s.drop_last(), k);
        if s.last().0 == k {
            assert(s[s.len() - 1].0 == k);
        } else {
            assert forall|i: int| 0 <= i < s.len() && s[i].0 == k implies has_key(
                s.drop_last(),
                k,
            ) by {
                assert(s.drop_last()[i] == s[i]);
            }
            assert forall|i: int| 0 <= i < s.len() - 1 && s.drop_last()[i].0 == k implies has_key(
                s,
                k,
            ) by {
                assert(s[i].0 == k);
            }
        }
    }
}

/// With unique keys, the denoted map sends each pair's key to its value.
pub proof fn lemma_map_of_index<K, V>(s: Seq<(K, V)>, i: int)
    requires
        keys_unique(s),
        0 <= i < s.len(),
    ensures
        map_of(s).contains_key(s[i].0),
        map_of(s)[s[i].0] == s[i].1,
    decreases s.len(),
{
    if i == s.len() - 1 {
    } else {
        assert(keys_unique(s.drop_last())) by {
            assert forall|a: int, b: int|
                0 <= a < b < s.drop_last().len() implies s.drop_last()[a].0
                != s.drop_last()[b].0 by {
                assert(s.drop_last()[a] == s[a] && s.drop_last()[b] == s[b]);
            }
        }
        assert(s.drop_last()[i] == s[i]);
        lemma_map_of_index(s.drop_last(), i);
        assert(s[i].0 != s.last().0);
    }
}

/// Appending a pair inserts it into the denoted map.
pub proof fn lemma_map_of_push<K, V>(s: Seq<(K, V)>, k: K, v: V)
    ensures
        map_of(s.push((k, v))) == map_of(s).insert(k, v),
{
    assert(s.push((k, v)).drop_last() =~= s);
    assert(s.push((k, v)).last() == (k, v));
}

/// Replacing the pair at a key's index updates that key in the denoted map.
pub proof fn lemma_map_of_update<K, V>(s: Seq<(K, V)>, i: int, v: V)
    requires
        keys_unique(s),
        0 <= i < s.len(),
    ensures
        map_of(s.update(i, (s[i].0, v))) =~= map_of(s).insert(s[i].0, v),
        keys_unique(s.update(i, (s[i].0, v))),
    decreases s.len(),
{
    let k = s[i].0;
    let su = s.update(i, (k, v));
    assert(keys_unique(su));
    if i == s.len() - 1 {
        assert(su.drop_last() =~= s.drop_last());
        assert(map_of(su) == map_of(s.drop_last()).insert(k, v));
        assert(map_of(s) == map_of(s.drop_last()).insert(k, s.last().1));
        assert(map_of(s.drop_last()).insert(k, v) =~= map_of(s.drop_last()).insert(
            k,
            s.last().1,
        ).insert(k, v));
    } else {
        assert(keys_unique(s.drop_last())) by {
            assert forall|a: int, b: int|
                0 <= a < b < s.drop_last().len() implies s.drop_last()[a].0
                != s.drop_last()[b].0 by {
                assert(s.drop_last()[a] == s[a] && s.drop_last()[b] == s[b]);
            }
        }
        assert(s.drop_last()[i] == s[i]);
        lemma_map_of_update(s.drop_last(), i, v);
        assert(su.drop_last() =~= s.drop_last().update(i, (k, v)));
        assert(su.last() == s.last());
        assert(k != s.last().0);
        assert(map_of(su) == map_of(s.drop_last().update(i, (k, v))).insert(
            s.last().0,
            s.last().1,
        ));
        assert(map_of(su) =~= map_of(s.drop_last()).insert(k, v).insert(s.last().0, s.last().1));
        assert(map_of(s.drop_last()).insert(k, v).insert(s.last().0, s.last().1)
            =~= map_of(s.drop_last()).insert(s.last().0, s.last().1).insert(k, v));
    }
}

/// Swapping the last pair into a key's place and dropping the end removes
/// that key from the denoted map.
pub proof fn lemma_map_of_swap_remove<K, V>(s: Seq<(K, V)>, i: int)
    requires
        keys_unique(s),
        0 <= i < s.len(),
    ensures
        map_of(s.update(i, s.last()).drop_last()) =~= map_of(s).remove(s[i].0),
        keys_unique(s.update(i, s.last()).drop_last()),
{
    let k = s[i].0;
    let r = s.update(i, s.last()).drop_last();
    assert forall|a: int, b: int| 0 <= a < b < r.len() implies r[a].0 != r[b].0 by {
        let sa = if a == i {
            s.len() - 1
        } else {
            a
        };
        let sb = if b == i {
            s.len() - 1
        } else {
            b
        };
        assert(r[a] == s[sa] && r[b] == s[sb]);
    }
    assert forall|k2: K| #[trigger] map_of(r).contains_key(k2) == (map_of(s).contains_key(k2) && k2
        != k) by {
        lemma_map_of_contains(r, k2);
        lemma_map_of_contains(s, k2);
        if has_key(r, k2) {
            let j = choose|j: int| 0 <= j < r.len() && r[j].0 == k2;
            let sj = if j == i {
                s.len() - 1
            } else {
                j
            };
            assert(r[j] == s[sj]);
            assert(has_key(s, k2));
            assert(k2 != k);
        }
        if has_key(s, k2) && k2 != k {
            let j = choose|j: int| 0 <= j < s.len() && s[j].0 == k2;
            if j == s.len() - 1 {
                if i < s.len() - 1 {
                    assert(r[i] == s[j]);
                } else {
                    assert(s[i].0 == k2);
                }
            } else {
                assert(r[j] == s[j]);
            }
        }
    }
    assert forall|k2: K| #[trigger] map_of(r).contains_key(k2) implies map_of(r)[k2] == map_of(
        s,
    )[k2] by {
        lemma_map_of_contains(r, k2);
        let j = choose|j: int| 0 <= j < r.len() && r[j].0 == k2;
        let sj = if j == i {
            s.len() - 1
        } else {
            j
        };
        assert(r[j] == s[sj]);
        lemma_map_of_index(r, j);
        lemma_map_of_index(s, sj);
    }
}

} // verus!
