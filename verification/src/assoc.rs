//! Association lists read as maps: a sequence of key/value pairs in which a
//! later pair overrides an earlier one with the same key.

use vstd::prelude::*;

verus! {

/// The map that a sequence of pairs stands for. Pairs are applied from the
/// front, so the last pair with a given key decides its value.
pub open spec fn assoc_map<V>(pairs: Seq<(Seq<char>, V)>) -> Map<Seq<char>, V>
    decreases pairs.len(),
{
    if pairs.len() == 0 {
        Map::empty()
    } else {
        assoc_map(pairs.drop_last()).insert(pairs.last().0, pairs.last().1)
    }
}

/// No pair of `pairs` has the key `key`.
pub open spec fn key_absent<V>(pairs: Seq<(Seq<char>, V)>, key: Seq<char>) -> bool {
    forall|j: int| 0 <= j < pairs.len() ==> (#[trigger] pairs[j]).0 != key
}

/// `at` is the last position of `pairs` that holds the key `key`.
pub open spec fn last_with_key<V>(pairs: Seq<(Seq<char>, V)>, key: Seq<char>, at: int) -> bool {
    &&& 0 <= at < pairs.len()
    &&& pairs[at].0 == key
    &&& forall|j: int| at < j < pairs.len() ==> (#[trigger] pairs[j]).0 != key
}

/// No two positions of `pairs` hold the same key.
pub open spec fn keys_distinct<V>(pairs: Seq<(Seq<char>, V)>) -> bool {
    forall|i: int, j: int|
        0 <= i < j < pairs.len() ==> (#[trigger] pairs[i]).0 != (#[trigger] pairs[j]).0
}

/// Appending a pair inserts it into the map.
pub proof fn lemma_assoc_push<V>(pairs: Seq<(Seq<char>, V)>, key: Seq<char>, value: V)
    ensures
        assoc_map(pairs.push((key, value))) == assoc_map(pairs).insert(key, value),
{
    assert(pairs.push((key, value)).drop_last() =~= pairs);
}

/// A key that no pair holds is not in the map.
pub proof fn lemma_assoc_absent<V>(pairs: Seq<(Seq<char>, V)>, key: Seq<char>)
    requires
        key_absent(pairs, key),
    ensures
        !assoc_map(pairs).contains_key(key),
    decreases pairs.len(),
{
    if pairs.len() > 0 {
        assert(pairs.last() == pairs[pairs.len() - 1]);
        assert forall|j: int| 0 <= j < pairs.drop_last().len() implies (#[trigger] pairs.drop_last()[j]).0
            != key by {
            assert(pairs.drop_last()[j] == pairs[j]);
        }
        lemma_assoc_absent(pairs.drop_last(), key);
    }
}

/// The map gives a key the value of the last pair that holds it.
pub proof fn lemma_assoc_lookup<V>(pairs: Seq<(Seq<char>, V)>, key: Seq<char>, at: int)
    requires
        last_with_key(pairs, key, at),
    ensures
        assoc_map(pairs).contains_key(key),
        assoc_map(pairs)[key] == pairs[at].1,
    decreases pairs.len(),
{
    if at < pairs.len() - 1 {
        let front = pairs.drop_last();
        assert(pairs.last() == pairs[pairs.len() - 1]);
        assert(front[at] == pairs[at]);
        assert forall|j: int| at < j < front.len() implies (#[trigger] front[j]).0 != key by {
            assert(front[j] == pairs[j]);
        }
        lemma_assoc_lookup(front, key, at);
    }
}

/// Every key that some pair holds is in the map.
pub proof fn lemma_assoc_present<V>(pairs: Seq<(Seq<char>, V)>, at: int)
    requires
        0 <= at < pairs.len(),
    ensures
        assoc_map(pairs).contains_key(pairs[at].0),
    decreases pairs.len(),
{
    if at < pairs.len() - 1 {
        assert(pairs.drop_last()[at] == pairs[at]);
        lemma_assoc_present(pairs.drop_last(), at);
    }
}

/// Overwriting the last pair that holds a key, with the same key, inserts
/// the new value into the map.
pub proof fn lemma_assoc_replace<V>(pairs: Seq<(Seq<char>, V)>, key: Seq<char>, at: int, value: V)
    requires
        last_with_key(pairs, key, at),
    ensures
        assoc_map(pairs.update(at, (key, value))) == assoc_map(pairs).insert(key, value),
    decreases pairs.len(),
{
    let changed = pairs.update(at, (key, value));
    let front = pairs.drop_last();
    if at == pairs.len() - 1 {
        assert(changed.drop_last() =~= front);
        assert(assoc_map(changed) =~= assoc_map(pairs).insert(key, value));
    } else {
        assert(pairs.last() == pairs[pairs.len() - 1]);
        assert(front[at] == pairs[at]);
        assert forall|j: int| at < j < front.len() implies (#[trigger] front[j]).0 != key by {
            assert(front[j] == pairs[j]);
        }
        lemma_assoc_replace(front, key, at, value);
        assert(changed.drop_last() =~= front.update(at, (key, value)));
        assert(changed.last() == pairs.last());
        assert(assoc_map(changed) =~= assoc_map(pairs).insert(key, value));
    }
}

/// Where all keys differ, taking a pair out removes its key from the map.
pub proof fn lemma_assoc_remove<V>(pairs: Seq<(Seq<char>, V)>, at: int)
    requires
        keys_distinct(pairs),
        0 <= at < pairs.len(),
    ensures
        assoc_map(pairs.remove(at)) == assoc_map(pairs).remove(pairs[at].0),
        keys_distinct(pairs.remove(at)),
    decreases pairs.len(),
{
    let key = pairs[at].0;
    let front = pairs.drop_last();
    let rest = pairs.remove(at);
    assert forall|i: int, j: int| 0 <= i < j < rest.len() implies (#[trigger] rest[i]).0 != (
    #[trigger] rest[j]).0 by {
        let si = if i < at { i } else { i + 1 };
        let sj = if j < at { j } else { j + 1 };
        assert(rest[i] == pairs[si]);
        assert(rest[j] == pairs[sj]);
    }
    assert forall|i: int, j: int| 0 <= i < j < front.len() implies (#[trigger] front[i]).0 != (
    #[trigger] front[j]).0 by {
        assert(front[i] == pairs[i]);
        assert(front[j] == pairs[j]);
    }
    if at == pairs.len() - 1 {
        assert(rest =~= front);
        assert forall|j: int| 0 <= j < front.len() implies (#[trigger] front[j]).0 != key by {
            assert(front[j] == pairs[j]);
        }
        lemma_assoc_absent(front, key);
        assert(assoc_map(rest) =~= assoc_map(pairs).remove(key));
    } else {
        assert(pairs.last() == pairs[pairs.len() - 1]);
        assert(front[at] == pairs[at]);
        lemma_assoc_remove(front, at);
        assert(rest.drop_last() =~= front.remove(at));
        assert(rest.last() == pairs.last());
        assert(assoc_map(rest) =~= assoc_map(pairs).remove(key));
    }
}

} // verus!
