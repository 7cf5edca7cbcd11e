//! Association lists and the finite maps they denote.
//!
//! The executable containers in this crate store their entries as vectors of
//! key/value pairs; the spec-level meaning of such a list is the `Map` built
//! by inserting the pairs left to right, so a later entry for a key overrides
//! an earlier one. Lists whose keys are pairwise distinct denote the map one
//! would expect, and the lemmas here connect the two levels.

use vstd::prelude::*;

verus! {

/// The finite map denoted by an association list, built left to right
/// (a later entry for the same key wins).
pub open spec fn map_of<K, V>(s: Seq<(K, V)>) -> Map<K, V>
    decreases s.len(),
{
    if s.len() == 0 {
        Map::empty()
    } else {
        map_of(s.drop_last()).insert(s.last().0, s.last().1)
    }
}

/// All keys (first components) of the list are pairwise distinct.
pub open spec fn unique_keys<K, V>(s: Seq<(K, V)>) -> bool {
    forall|i: int, j: int| 0 <= i < j < s.len() ==> s[i].0 != s[j].0
}

/// All values (second components) of the list are pairwise distinct.
pub open spec fn unique_values<K, V>(s: Seq<(K, V)>) -> bool {
    forall|i: int, j: int| 0 <= i < j < s.len() ==> s[i].1 != s[j].1
}

/// A key is in the denoted map exactly when some entry carries it.
pub proof fn lemma_map_of_contains_key<K, V>(s: Seq<(K, V)>, k: K)
    ensures
        map_of(s).contains_key(k) <==> exists|i: int| 0 <= i < s.len() && s[i].0 == k,
    decreases s.len(),
{
    if s.len() > 0 {
        lemma_map_of_contains_key(s.drop_last(), k);
        if s.last().0 == k {
            assert(s[s.len() - 1].0 == k);
        } else if map_of(s).contains_key(k) {
            let i = choose|i: int| 0 <= i < s.drop_last().len() && s.drop_last()[i].0 == k;
            assert(s[i].0 == k);
        } else if exists|i: int| 0 <= i < s.len() && s[i].0 == k {
            let i = choose|i: int| 0 <= i < s.len() && s[i].0 == k;
            assert(i < s.len() - 1);
            assert(s.drop_last()[i].0 == k);
        }
    }
}

/// With distinct keys, each entry gives the denoted map's value at its key.
pub proof fn lemma_map_of_index<K, V>(s: Seq<(K, V)>, i: int)
    requires
        unique_keys(s),
        0 <= i < s.len(),
    ensures
        map_of(s).contains_key(s[i].0),
        map_of(s)[s[i].0] == s[i].1,
    decreases s.len(),
{
    if i < s.len() - 1 {
        assert(unique_keys(s.drop_last()));
        assert(s.drop_last()[i] == s[i]);
        lemma_map_of_index(s.drop_last(), i);
        assert(s.last().0 != s[i].0);
    }
}

/// With distinct keys, the denoted map holds exactly the listed pairs.
pub proof fn lemma_map_of_contains_pair<K, V>(s: Seq<(K, V)>, k: K, v: V)
    requires
        unique_keys(s),
    ensures
        map_of(s).contains_pair(k, v) <==> exists|i: int| 0 <= i < s.len() && s[i] == (k, v),
{
    lemma_map_of_contains_key(s, k);
    if map_of(s).contains_pair(k, v) {
        let i = choose|i: int| 0 <= i < s.len() && s[i].0 == k;
        lemma_map_of_index(s, i);
        assert(s[i] == (k, v));
    } else if exists|i: int| 0 <= i < s.len() && s[i] == (k, v) {
        let i = choose|i: int| 0 <= i < s.len() && s[i] == (k, v);
        lemma_map_of_index(s, i);
    }
}

/// Appending an entry inserts its pair into the denoted map.
pub proof fn lemma_map_of_push<K, V>(s: Seq<(K, V)>, e: (K, V))
    ensures
        map_of(s.push(e)) == map_of(s).insert(e.0, e.1),
{
    assert(s.push(e).drop_last() =~= s);
    assert(s.push(e).last() == e);
}

/// Every pair of the denoted map is one of the listed entries (with repeated
/// keys, the converse need not hold).
pub proof fn lemma_map_of_pair_exists<K, V>(s: Seq<(K, V)>, k: K, v: V)
    requires
        map_of(s).contains_pair(k, v),
    ensures
        exists|i: int| 0 <= i < s.len() && s[i] == (k, v),
    decreases s.len(),
{
    if s.last() == (k, v) {
        assert(s[s.len() - 1] == (k, v));
    } else if s.last().0 == k {
        assert(false);
    } else {
        lemma_map_of_pair_exists(s.drop_last(), k, v);
        let i = choose|i: int| 0 <= i < s.drop_last().len() && s.drop_last()[i] == (k, v);
        assert(s[i] == (k, v));
    }
}

/// With distinct keys, overwriting an entry's value in place inserts the new
/// pair into the denoted map.
pub proof fn lemma_map_of_update<K, V>(s: Seq<(K, V)>, j: int, e: (K, V))
    requires
        unique_keys(s),
        0 <= j < s.len(),
        s[j].0 == e.0,
    ensures
        map_of(s.update(j, e)) == map_of(s).insert(e.0, e.1),
    decreases s.len(),
{
    if j == s.len() - 1 {
        assert(s.update(j, e).drop_last() =~= s.drop_last());
        assert(s.update(j, e).last() == e);
        assert(map_of(s.drop_last()).insert(s[j].0, s[j].1).insert(e.0, e.1) =~= map_of(
            s.drop_last(),
        ).insert(e.0, e.1));
    } else {
        assert(unique_keys(s.drop_last()));
        assert(s.drop_last()[j] == s[j]);
        lemma_map_of_update(s.drop_last(), j, e);
        assert(s.update(j, e).drop_last() =~= s.drop_last().update(j, e));
        assert(s.update(j, e).last() == s.last());
        assert(s.last().0 != e.0);
        assert(map_of(s.drop_last()).insert(e.0, e.1).insert(s.last().0, s.last().1) =~= map_of(
            s.drop_last(),
        ).insert(s.last().0, s.last().1).insert(e.0, e.1));
    }
}

} // verus!
