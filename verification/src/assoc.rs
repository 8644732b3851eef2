//! Association sequences read as maps.

use vstd::prelude::*;

verus! {

/// The map that a sequence of (key, value) pairs stands for: a later pair
/// overrides an earlier one with the same key.
pub open spec fn assoc_map<K, E>(s: Seq<(K, E)>) -> Map<K, E>
    decreases s.len(),
{
    if s.len() == 0 {
        Map::empty()
    } else {
        assoc_map(s.drop_last()).insert(s.last().0, s.last().1)
    }
}

/// No key stands at two places of the sequence.
pub open spec fn distinct_keys<K, E>(s: Seq<(K, E)>) -> bool {
    forall|i: int, j: int| 0 <= i < j < s.len() ==> s[i].0 != s[j].0
}

/// A key that stands nowhere in the sequence is not in the map.
pub proof fn lemma_assoc_absent<K, E>(s: Seq<(K, E)>, k: K)
    requires
        forall|i: int| 0 <= i < s.len() ==> s[i].0 != k,
    ensures
        !assoc_map(s).dom().contains(k),
    decreases s.len(),
{
    if s.len() > 0 {
        lemma_assoc_absent(s.drop_last(), k);
    }
}

/// With distinct keys, the map holds each pair of the sequence.
pub proof fn lemma_assoc_lookup<K, E>(s: Seq<(K, E)>, i: int)
    requires
        distinct_keys(s),
        0 <= i < s.len(),
    ensures
        assoc_map(s).dom().contains(s[i].0),
        assoc_map(s)[s[i].0] == s[i].1,
    decreases s.len(),
{
    if i < s.len() - 1 {
        lemma_assoc_lookup(s.drop_last(), i);
    }
}

/// Appending a pair inserts it into the map.
pub proof fn lemma_assoc_push<K, E>(s: Seq<(K, E)>, k: K, e: E)
    ensures
        assoc_map(s.push((k, e))) == assoc_map(s).insert(k, e),
{
    assert(s.push((k, e)).drop_last() =~= s);
}

/// With distinct keys, replacing the value at one place inserts it into the
/// map under that place's key.
pub proof fn lemma_assoc_update<K, E>(s: Seq<(K, E)>, i: int, e: E)
    requires
        distinct_keys(s),
        0 <= i < s.len(),
    ensures
        assoc_map(s.update(i, (s[i].0, e))) =~= assoc_map(s).insert(s[i].0, e),
        distinct_keys(s.update(i, (s[i].0, e))),
    decreases s.len(),
{
    let t = s.update(i, (s[i].0, e));
    if i == s.len() - 1 {
        assert(t.drop_last() =~= s.drop_last());
    } else {
        assert(t.drop_last() =~= s.drop_last().update(i, (s[i].0, e)));
        lemma_assoc_update(s.drop_last(), i, e);
    }
}

} // verus!
