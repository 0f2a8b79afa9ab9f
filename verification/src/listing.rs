//! Lists of things that have ids, and maps by those ids.

use crate::error::ErrorView;
use std::collections::HashMap;
use std::hash::Hash;
use vstd::prelude::*;
use vstd::std_specs::hash::obeys_key_model;
use vstd::std_specs::iter::IteratorSpec;

verus! {

broadcast use vstd::std_specs::hash::group_hash_axioms;

/// The map that a list of keys and values gives, where of several values with one key the last
/// one counts.
pub open spec fn last_wins<K, V>(pairs: Seq<(K, V)>) -> Map<K, V>
    decreases pairs.len(),
{
    if pairs.len() == 0 {
        Map::empty()
    } else {
        last_wins(pairs.drop_last()).insert(pairs.last().0, pairs.last().1)
    }
}

/// The map that a list of keys and values gives, where of several values with one key the first
/// one counts.
pub open spec fn first_wins<K, V>(pairs: Seq<(K, V)>) -> Map<K, V>
    decreases pairs.len(),
{
    if pairs.len() == 0 {
        Map::empty()
    } else {
        first_wins(pairs.drop_first()).insert(pairs.first().0, pairs.first().1)
    }
}

/// The map that a list of keys and values gives where each of them can be had, with the last value
/// of several with one key; or else why the first one that cannot be had is missing.
pub open spec fn collected<K, V>(items: Seq<Result<(K, V), ErrorView>>) -> Result<Map<K, V>, ErrorView>
    decreases items.len(),
{
    if items.len() == 0 {
        Ok(Map::empty())
    } else {
        match collected(items.drop_last()) {
            Err(e) => Err(e),
            Ok(m) => match items.last() {
                Err(e) => Err(e),
                Ok(p) => Ok(m.insert(p.0, p.1)),
            },
        }
    }
}

/// The keys of a map in some order, each once.
pub open spec fn keys_in_order<K, V>(keys: Seq<K>, m: Map<K, V>) -> bool {
    &&& keys.no_duplicates()
    &&& keys.to_set() == m.dom()
}

/// A list tells the values of a map, in some order, each once.
pub open spec fn tells<K, V, A>(list: Seq<A>, m: Map<K, V>, gives: spec_fn(A, V) -> bool) -> bool {
    exists|keys: Seq<K>| #[trigger]
        keys_in_order(keys, m) && list.len() == keys.len() && forall|i: int|
            0 <= i < keys.len() ==> gives(#[trigger] list[i], m[keys[i]])
}

/// The keys in a list are the keys of its map, and each key has the last value that stands with it
/// in the list.
pub proof fn last_wins_means<K, V>(pairs: Seq<(K, V)>)
    ensures
        forall|k: K| #[trigger]
            last_wins(pairs).contains_key(k) ==> exists|i: int|
                0 <= i < pairs.len() && (#[trigger] pairs[i]).0 == k && last_wins(pairs)[k] == pairs[i].1
                    && forall|j: int| i < j < pairs.len() ==> (#[trigger] pairs[j]).0 != k,
        forall|i: int| 0 <= i < pairs.len() ==> last_wins(pairs).contains_key((#[trigger] pairs[i]).0),
    decreases pairs.len(),
{
    if pairs.len() > 0 {
        last_wins_means(pairs.drop_last());
        let rest: Seq<(K, V)> = pairs.drop_last();
        assert forall|k: K| #[trigger] last_wins(pairs).contains_key(k) implies exists|i: int|
            0 <= i < pairs.len() && (#[trigger] pairs[i]).0 == k && last_wins(pairs)[k] == pairs[i].1 && forall|
                j: int,
            |
                i < j < pairs.len() ==> (#[trigger] pairs[j]).0 != k by {
            if k == pairs.last().0 {
                assert(pairs[pairs.len() - 1].0 == k);
            } else {
                assert(last_wins(rest).contains_key(k));
                let i: int = choose|i: int|
                    0 <= i < rest.len() && (#[trigger] rest[i]).0 == k && last_wins(rest)[k] == rest[i].1
                        && forall|j: int| i < j < rest.len() ==> (#[trigger] rest[j]).0 != k;
                assert(pairs[i].0 == k);
                assert forall|j: int| i < j < pairs.len() implies (#[trigger] pairs[j]).0 != k by {
                    if j < rest.len() {
                        assert(rest[j].0 != k);
                    }
                }
            }
        }
        assert forall|i: int| 0 <= i < pairs.len() implies last_wins(pairs).contains_key(
            (#[trigger] pairs[i]).0,
        ) by {
            if i < rest.len() {
                assert(last_wins(rest).contains_key(rest[i].0));
            }
        }
    }
}

/// The keys in a list are the keys of its map, and each key has the first value that stands with it
/// in the list.
pub proof fn first_wins_means<K, V>(pairs: Seq<(K, V)>)
    ensures
        forall|k: K| #[trigger]
            first_wins(pairs).contains_key(k) ==> exists|i: int|
                0 <= i < pairs.len() && (#[trigger] pairs[i]).0 == k && first_wins(pairs)[k] == pairs[i].1
                    && forall|j: int| 0 <= j < i ==> (#[trigger] pairs[j]).0 != k,
        forall|i: int| 0 <= i < pairs.len() ==> first_wins(pairs).contains_key((#[trigger] pairs[i]).0),
    decreases pairs.len(),
{
    if pairs.len() > 0 {
        let rest: Seq<(K, V)> = pairs.drop_first();
        first_wins_means(rest);
        assert forall|k: K| #[trigger] first_wins(pairs).contains_key(k) implies exists|i: int|
            0 <= i < pairs.len() && (#[trigger] pairs[i]).0 == k && first_wins(pairs)[k] == pairs[i].1 && forall|
                j: int,
            |
                0 <= j < i ==> (#[trigger] pairs[j]).0 != k by {
            if k == pairs.first().0 {
                assert(pairs[0].0 == k);
            } else {
                assert(first_wins(rest).contains_key(k));
                let i: int = choose|i: int|
                    0 <= i < rest.len() && (#[trigger] rest[i]).0 == k && first_wins(rest)[k] == rest[i].1
                        && forall|j: int| 0 <= j < i ==> (#[trigger] rest[j]).0 != k;
                assert(pairs[i + 1].0 == k);
                assert forall|j: int| 0 <= j < i + 1 implies (#[trigger] pairs[j]).0 != k by {
                    if j > 0 {
                        assert(rest[j - 1].0 != k);
                    }
                }
            }
        }
        assert forall|i: int| 0 <= i < pairs.len() implies first_wins(pairs).contains_key(
            (#[trigger] pairs[i]).0,
        ) by {
            if i > 0 {
                assert(first_wins(rest).contains_key(rest[i - 1].0));
            }
        }
    }
}

/// A list that tells each value of a map with its key gives that map back.
pub proof fn list_read_back<K, V>(pairs: Seq<(K, V)>, keys: Seq<K>, m: Map<K, V>)
    requires
        keys_in_order(keys, m),
        pairs.len() == keys.len(),
        forall|i: int| 0 <= i < keys.len() ==> #[trigger] pairs[i] == (keys[i], m[keys[i]]),
    ensures
        last_wins(pairs) == m,
        first_wins(pairs) == m,
{
    last_wins_means(pairs);
    first_wins_means(pairs);
    assert forall|k: K| #[trigger] m.contains_key(k) implies last_wins(pairs).contains_key(k) && first_wins(
        pairs,
    ).contains_key(k) by {
        assert(keys.to_set().contains(k));
        let i: int = choose|i: int| 0 <= i < keys.len() && keys[i] == k;
        assert(pairs[i].0 == k);
    }
    assert forall|k: K| #[trigger] last_wins(pairs).contains_key(k) implies m.contains_key(k) && last_wins(
        pairs,
    )[k] == m[k] by {
        let i: int = choose|i: int|
            0 <= i < pairs.len() && (#[trigger] pairs[i]).0 == k && last_wins(pairs)[k] == pairs[i].1;
        assert(keys.to_set().contains(keys[i]));
    }
    assert forall|k: K| #[trigger] first_wins(pairs).contains_key(k) implies m.contains_key(k) && first_wins(
        pairs,
    )[k] == m[k] by {
        let i: int = choose|i: int|
            0 <= i < pairs.len() && (#[trigger] pairs[i]).0 == k && first_wins(pairs)[k] == pairs[i].1;
        assert(keys.to_set().contains(keys[i]));
    }
    assert(last_wins(pairs) =~= m);
    assert(first_wins(pairs) =~= m);
}

/// Things that can all be had give the map of their list.
pub proof fn collected_all<K, V>(items: Seq<Result<(K, V), ErrorView>>, pairs: Seq<(K, V)>)
    requires
        items.len() == pairs.len(),
        forall|i: int| 0 <= i < items.len() ==> #[trigger] items[i] == Ok::<(K, V), ErrorView>(pairs[i]),
    ensures
        collected(items) == Ok::<Map<K, V>, ErrorView>(last_wins(pairs)),
    decreases items.len(),
{
    if items.len() > 0 {
        assert forall|i: int| 0 <= i < items.drop_last().len() implies #[trigger] items.drop_last()[i] == Ok::<
            (K, V),
            ErrorView,
        >(pairs.drop_last()[i]) by {
            assert(items[i] == Ok::<(K, V), ErrorView>(pairs[i]));
        }
        collected_all(items.drop_last(), pairs.drop_last());
    }
}

/// What the first things of a list lack, the list lacks.
pub(crate) proof fn collected_prefix<K, V>(items: Seq<Result<(K, V), ErrorView>>, n: int)
    requires
        0 <= n <= items.len(),
        collected(items.take(n)) is Err,
    ensures
        collected(items) == collected(items.take(n)),
    decreases items.len(),
{
    if n == items.len() {
        assert(items.take(n) =~= items);
    } else {
        assert(items.drop_last().take(n) =~= items.take(n));
        collected_prefix(items.drop_last(), n);
    }
}

/// The keys of a map, in some order.
pub(crate) fn list_keys<K: Copy + Eq + Hash, V>(m: &HashMap<K, V>) -> (r: Vec<K>)
    requires
        obeys_key_model::<K>(),
    ensures
        keys_in_order(r@, m@),
{
    let mut list: Vec<K> = Vec::new();
    let ghost walk: Seq<K> = m.keys().remaining().unref();
    for key in it: m.keys()
        invariant
            it.seq().unref() == walk,
            list@ == walk.take(it.index()),
    {
        list.push(*key);
        proof {
            assert(list@ =~= walk.take(it.index() + 1));
        }
    }
    proof {
        assert(list@ =~= walk);
    }
    list
}

/// The values of a map, in some order.
pub(crate) fn take_values<V>(m: HashMap<i64, V>) -> (r: Vec<V>)
    ensures
        tells(r@, m@, |a: V, b: V| a == b),
{
    let keys: Vec<i64> = list_keys(&m);
    let ghost whole: Map<i64, V> = m@;
    let mut left: HashMap<i64, V> = m;
    let mut list: Vec<V> = Vec::new();
    let mut i: usize = 0;
    while i < keys.len()
        invariant
            i <= keys@.len(),
            keys_in_order(keys@, whole),
            list@.len() == i,
            forall|j: int| 0 <= j < i ==> #[trigger] list@[j] == whole[keys@[j]],
            forall|j: int|
                i <= j < keys@.len() ==> left@.contains_key(#[trigger] keys@[j]) && left@[keys@[j]]
                    == whole[keys@[j]],
        decreases keys@.len() - i,
    {
        if let Some(value) = left.remove(&keys[i]) {
            list.push(value);
        }
        i = i + 1;
    }
    list
}

} // verus!
