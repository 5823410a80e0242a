//! Lists of key-value pairs, read as maps.

use vstd::prelude::*;

verus! {

/// No key occurs twice.
pub open spec fn unique_keys<K, V>(s: Seq<(K, V)>) -> bool {
    forall|i: int, j: int| 0 <= i < j < s.len() ==> s[i].0 != s[j].0
}

/// The map of a list of pairs (a later pair wins, though with unique keys
/// there is none).
pub open spec fn to_map<K, V>(s: Seq<(K, V)>) -> Map<K, V>
    decreases s.len(),
{
    if s.len() == 0 {
        Map::empty()
    } else {
        to_map(s.drop_last()).insert(s.last().0, s.last().1)
    }
}

/// With unique keys, the map holds exactly the pairs of the list.
pub proof fn lemma_to_map_lookup<K, V>(s: Seq<(K, V)>)
    requires
        unique_keys(s),
    ensures
        forall|k: K| #[trigger] to_map(s).contains_key(k) <==> exists|i: int| 0 <= i < s.len() && s[i].0 == k,
        forall|i: int| 0 <= i < s.len() ==> #[trigger] to_map(s)[s[i].0] == s[i].1,
    decreases s.len(),
{
    if s.len() > 0 {
        let t = s.drop_last();
        let last = s.last();
        assert forall|i: int| 0 <= i < t.len() implies #[trigger] t[i] == s[i] by {}
        assert(unique_keys(t));
        lemma_to_map_lookup(t);
        assert(to_map(s) == to_map(t).insert(last.0, last.1));
        assert forall|k: K| #[trigger] to_map(s).contains_key(k) implies exists|i: int|
            0 <= i < s.len() && s[i].0 == k by {
            if k == last.0 {
                assert(s[s.len() - 1].0 == k);
            } else {
                assert(to_map(t).contains_key(k));
                let i = choose|i: int| 0 <= i < t.len() && t[i].0 == k;
                assert(t[i] == s[i]);
                assert(s[i].0 == k);
            }
        }
        assert forall|k: K| (exists|i: int| 0 <= i < s.len() && s[i].0 == k) implies #[trigger] to_map(
            s,
        ).contains_key(k) by {
            let i = choose|i: int| 0 <= i < s.len() && s[i].0 == k;
            if i < s.len() - 1 {
                assert(t[i] == s[i]);
                assert(to_map(t).contains_key(k));
            }
        }
        assert forall|i: int| 0 <= i < s.len() implies #[trigger] to_map(s)[s[i].0] == s[i].1 by {
            if i < s.len() - 1 {
                assert(t[i] == s[i]);
                assert(s[i].0 != last.0);
                assert(to_map(t)[t[i].0] == t[i].1);
            }
        }
    }
}

/// Replacing the value of a pair replaces it in the map.
pub proof fn lemma_to_map_update<K, V>(s: Seq<(K, V)>, i: int, v: V)
    requires
        unique_keys(s),
        0 <= i < s.len(),
    ensures
        unique_keys(s.update(i, (s[i].0, v))),
        to_map(s.update(i, (s[i].0, v))) == to_map(s).insert(s[i].0, v),
{
    let t = s.update(i, (s[i].0, v));
    assert(unique_keys(t));
    lemma_to_map_lookup(s);
    lemma_to_map_lookup(t);
    assert forall|k: K| #[trigger] to_map(t).contains_key(k) <==> to_map(s).insert(s[i].0, v).contains_key(k) by {
        if exists|j: int| 0 <= j < s.len() && s[j].0 == k {
            let j = choose|j: int| 0 <= j < s.len() && s[j].0 == k;
            assert(t[j].0 == k);
        }
        if exists|j: int| 0 <= j < t.len() && t[j].0 == k {
            let j = choose|j: int| 0 <= j < t.len() && t[j].0 == k;
            assert(s[j].0 == k);
        }
    }
    assert forall|k: K| #[trigger] to_map(t).contains_key(k) implies to_map(t)[k] == to_map(s).insert(s[i].0, v)[k] by {
        let j = choose|j: int| 0 <= j < t.len() && t[j].0 == k;
        assert(to_map(t)[t[j].0] == t[j].1);
        if j != i {
            assert(to_map(s)[s[j].0] == s[j].1);
        }
    }
    assert(to_map(t) =~= to_map(s).insert(s[i].0, v));
}

/// Adding a pair with a new key adds it to the map.
pub proof fn lemma_to_map_push<K, V>(s: Seq<(K, V)>, k: K, v: V)
    requires
        unique_keys(s),
        !to_map(s).contains_key(k),
    ensures
        unique_keys(s.push((k, v))),
        to_map(s.push((k, v))) == to_map(s).insert(k, v),
{
    lemma_to_map_lookup(s);
    assert forall|i: int, j: int| 0 <= i < j < s.push((k, v)).len() implies s.push((k, v))[i].0 != s.push((
        k,
        v,
    ))[j].0 by {
        if j == s.len() {
            assert(s[i].0 == s.push((k, v))[i].0);
        }
    }
    assert(s.push((k, v)).drop_last() =~= s);
}

/// Taking out a pair takes its key out of the map.
pub proof fn lemma_to_map_remove<K, V>(s: Seq<(K, V)>, i: int)
    requires
        unique_keys(s),
        0 <= i < s.len(),
    ensures
        unique_keys(s.remove(i)),
        to_map(s.remove(i)) == to_map(s).remove(s[i].0),
{
    let t = s.remove(i);
    assert forall|a: int, b: int| 0 <= a < b < t.len() implies t[a].0 != t[b].0 by {
        let a2 = if a < i { a } else { a + 1 };
        let b2 = if b < i { b } else { b + 1 };
        assert(t[a] == s[a2] && t[b] == s[b2]);
    }
    lemma_to_map_lookup(s);
    lemma_to_map_lookup(t);
    assert forall|k: K| #[trigger] to_map(t).contains_key(k) <==> to_map(s).remove(s[i].0).contains_key(k) by {
        if exists|j: int| 0 <= j < t.len() && t[j].0 == k {
            let j = choose|j: int| 0 <= j < t.len() && t[j].0 == k;
            let j2 = if j < i { j } else { j + 1 };
            assert(s[j2].0 == k);
            assert(j2 != i);
        }
        if to_map(s).contains_key(k) && k != s[i].0 {
            let j = choose|j: int| 0 <= j < s.len() && s[j].0 == k;
            assert(j != i);
            let j2 = if j < i { j } else { j - 1 };
            assert(t[j2].0 == k);
        }
    }
    assert forall|k: K| #[trigger] to_map(t).contains_key(k) implies to_map(t)[k] == to_map(s)[k] by {
        let j = choose|j: int| 0 <= j < t.len() && t[j].0 == k;
        let j2 = if j < i { j } else { j + 1 };
        assert(t[j] == s[j2]);
        assert(to_map(t)[t[j].0] == t[j].1);
        assert(to_map(s)[s[j2].0] == s[j2].1);
    }
    assert(to_map(t) =~= to_map(s).remove(s[i].0));
}

/// Changing every value of a list changes every value of its map alike.
pub proof fn lemma_to_map_map_values<K, V, W>(s: Seq<(K, V)>, f: spec_fn(V) -> W)
    ensures
        to_map(s.map_values(|e: (K, V)| (e.0, f(e.1)))) == to_map(s).map_values(f),
    decreases s.len(),
{
    let g = |e: (K, V)| (e.0, f(e.1));
    if s.len() == 0 {
        assert(to_map(s.map_values(g)) =~= to_map(s).map_values(f));
    } else {
        lemma_to_map_map_values(s.drop_last(), f);
        assert(s.map_values(g).drop_last() =~= s.drop_last().map_values(g));
        assert(to_map(s.map_values(g)) =~= to_map(s).map_values(f));
    }
}

/// Changing every value of a list by its key changes every value of its
/// map alike.
pub proof fn lemma_to_map_map_entries<K, V>(s: Seq<(K, V)>, f: spec_fn(K, V) -> V)
    ensures
        to_map(s.map_values(|e: (K, V)| (e.0, f(e.0, e.1)))) == Map::new(
            |k: K| to_map(s).contains_key(k),
            |k: K| f(k, to_map(s)[k]),
        ),
    decreases s.len(),
{
    let g = |e: (K, V)| (e.0, f(e.0, e.1));
    if s.len() == 0 {
        assert(to_map(s.map_values(g)) =~= Map::new(|k: K| to_map(s).contains_key(k), |k: K| f(k, to_map(s)[k])));
    } else {
        lemma_to_map_map_entries(s.drop_last(), f);
        assert(s.map_values(g).drop_last() =~= s.drop_last().map_values(g));
        assert(to_map(s.map_values(g)) =~= Map::new(|k: K| to_map(s).contains_key(k), |k: K| f(k, to_map(s)[k])));
    }
}

} // verus!
