//! Lists of key-value pairs, read as maps in which the last pair of a key counts.

use vstd::prelude::*;

verus! {

/// The map that a list of pairs stands for.
pub open spec fn map_of<V>(pairs: Seq<(Seq<char>, V)>) -> Map<Seq<char>, V>
    decreases pairs.len(),
{
    if pairs.len() == 0 {
        Map::empty()
    } else {
        map_of(pairs.drop_last()).insert(pairs.last().0, pairs.last().1)
    }
}

/// A key that occurs in no pair is not in the map.
pub proof fn lemma_absent<V>(pairs: Seq<(Seq<char>, V)>, key: Seq<char>)
    requires
        forall|i: int| 0 <= i < pairs.len() ==> (#[trigger] pairs[i]).0 != key,
    ensures
        !map_of(pairs).contains_key(key),
    decreases pairs.len(),
{
    if pairs.len() > 0 {
        assert(pairs.last() == pairs[pairs.len() - 1]);
        assert forall|i: int| 0 <= i < pairs.drop_last().len() implies (
        #[trigger] pairs.drop_last()[i]).0 != key by {
            assert(pairs.drop_last()[i] == pairs[i]);
        }
        lemma_absent(pairs.drop_last(), key);
    }
}

/// The last pair of a key gives its value.
pub proof fn lemma_last<V>(pairs: Seq<(Seq<char>, V)>, at: int)
    requires
        0 <= at < pairs.len(),
        forall|i: int| at < i < pairs.len() ==> (#[trigger] pairs[i]).0 != pairs[at].0,
    ensures
        map_of(pairs).contains_key(pairs[at].0),
        map_of(pairs)[pairs[at].0] == pairs[at].1,
    decreases pairs.len(),
{
    if at < pairs.len() - 1 {
        let front = pairs.drop_last();
        assert(front[at] == pairs[at]);
        assert forall|i: int| at < i < front.len() implies (#[trigger] front[i]).0
            != front[at].0 by {
            assert(front[i] == pairs[i]);
        }
        lemma_last(front, at);
        assert(pairs[pairs.len() - 1].0 != pairs[at].0);
    }
}

/// Taking out the only pair of a key takes the key out of the map.
pub proof fn lemma_remove<V>(pairs: Seq<(Seq<char>, V)>, at: int)
    requires
        0 <= at < pairs.len(),
        forall|i: int| 0 <= i < pairs.len() && i != at ==> (#[trigger] pairs[i]).0 != pairs[at].0,
    ensures
        map_of(pairs.remove(at)) == map_of(pairs).remove(pairs[at].0),
    decreases pairs.len(),
{
    let front = pairs.drop_last();
    if at == pairs.len() - 1 {
        assert(pairs.remove(at) =~= front);
        assert forall|i: int| 0 <= i < front.len() implies (#[trigger] front[i]).0
            != pairs[at].0 by {
            assert(front[i] == pairs[i]);
        }
        lemma_absent(front, pairs[at].0);
    } else {
        assert(front[at] == pairs[at]);
        assert forall|i: int| 0 <= i < front.len() && i != at implies (#[trigger] front[i]).0
            != front[at].0 by {
            assert(front[i] == pairs[i]);
        }
        lemma_remove(front, at);
        assert(pairs.remove(at).drop_last() =~= front.remove(at));
        assert(pairs.remove(at).last() == pairs.last());
        assert(pairs[pairs.len() - 1].0 != pairs[at].0);
    }
    assert(map_of(pairs.remove(at)) =~= map_of(pairs).remove(pairs[at].0));
}

/// The keys of the map are finitely many.
pub proof fn lemma_finite<V>(pairs: Seq<(Seq<char>, V)>)
    ensures
        map_of(pairs).dom().finite(),
    decreases pairs.len(),
{
    if pairs.len() > 0 {
        lemma_finite(pairs.drop_last());
    }
}

/// A pair that is added behind the others sets the value of its key and leaves all other keys as
/// they are; without pairs there are no keys.
pub proof fn law_last_pair_counts<V>(pairs: Seq<(Seq<char>, V)>, key: Seq<char>, value: V)
    ensures
        map_of(pairs.push((key, value))) == map_of(pairs).insert(key, value),
        map_of(Seq::<(Seq<char>, V)>::empty()) == Map::<Seq<char>, V>::empty(),
{
    assert(pairs.push((key, value)).drop_last() =~= pairs);
}

} // verus!
