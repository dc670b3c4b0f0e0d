//! Maps from texts, spelt as pairs of key and value.

use vstd::prelude::*;

use crate::text;

verus! {

broadcast use vstd::map::group_map_axioms;

/// The map that `pairs` spell; where a key comes twice, the last value counts.
pub open spec fn pairs_map<V>(pairs: Seq<(Seq<char>, V)>) -> Map<Seq<char>, V>
    decreases pairs.len(),
{
    if pairs.len() == 0 {
        Map::empty()
    } else {
        pairs_map(pairs.drop_last()).insert(pairs.last().0, pairs.last().1)
    }
}

/// The keys of `pairs` stand in strictly ascending order.
pub open spec fn keys_ascend<V>(pairs: Seq<(Seq<char>, V)>) -> bool {
    forall|i: int, j: int|
        0 <= i < j < pairs.len() ==> text::text_before(
            (#[trigger] pairs[i]).0,
            (#[trigger] pairs[j]).0,
        )
}

/// A key is in the map exactly where a pair carries it.
pub proof fn pairs_map_keys<V>(pairs: Seq<(Seq<char>, V)>, key: Seq<char>)
    ensures
        pairs_map(pairs).contains_key(key) <==> exists|i: int|
            0 <= i < pairs.len() && (#[trigger] pairs[i]).0 == key,
    decreases pairs.len(),
{
    if pairs.len() > 0 {
        let rest = pairs.drop_last();
        pairs_map_keys(rest, key);
        if pairs_map(rest).contains_key(key) {
            let i = choose|i: int| 0 <= i < rest.len() && (#[trigger] rest[i]).0 == key;
            assert(pairs[i].0 == key);
        }
        if pairs.last().0 == key {
            assert(pairs[pairs.len() - 1].0 == key);
        }
        if exists|i: int| 0 <= i < pairs.len() && (#[trigger] pairs[i]).0 == key {
            let i = choose|i: int| 0 <= i < pairs.len() && (#[trigger] pairs[i]).0 == key;
            if i < pairs.len() - 1 {
                assert(rest[i].0 == key);
            }
        }
    }
}

/// The map of pairs is finite.
pub proof fn pairs_map_finite<V>(pairs: Seq<(Seq<char>, V)>)
    ensures
        pairs_map(pairs).dom().finite(),
    decreases pairs.len(),
{
    if pairs.len() > 0 {
        pairs_map_finite(pairs.drop_last());
    }
}

/// Where the keys ascend, the map gives back the value of each pair.
pub proof fn pairs_map_value<V>(pairs: Seq<(Seq<char>, V)>, i: int)
    requires
        keys_ascend(pairs),
        0 <= i < pairs.len(),
    ensures
        pairs_map(pairs).contains_key(pairs[i].0),
        pairs_map(pairs)[pairs[i].0] == pairs[i].1,
    decreases pairs.len(),
{
    let rest = pairs.drop_last();
    if i < pairs.len() - 1 {
        assert forall|a: int, b: int| 0 <= a < b < rest.len() implies text::text_before(
            (#[trigger] rest[a]).0,
            (#[trigger] rest[b]).0,
        ) by {
            assert(rest[a] == pairs[a] && rest[b] == pairs[b]);
        }
        pairs_map_value(rest, i);
        assert(rest[i] == pairs[i]);
        text::text_before_asymmetric(pairs[i].0, pairs[pairs.len() - 1].0);
    }
}

/// The map gives back the value of the last pair that carries a key.
pub proof fn pairs_map_last<V>(pairs: Seq<(Seq<char>, V)>, i: int)
    requires
        0 <= i < pairs.len(),
        forall|j: int| i < j < pairs.len() ==> (#[trigger] pairs[j]).0 != pairs[i].0,
    ensures
        pairs_map(pairs).contains_key(pairs[i].0),
        pairs_map(pairs)[pairs[i].0] == pairs[i].1,
    decreases pairs.len(),
{
    let rest = pairs.drop_last();
    if i < pairs.len() - 1 {
        pairs_map_last(rest, i);
        assert(rest[i] == pairs[i]);
        assert(pairs[pairs.len() - 1].0 != pairs[i].0);
    }
}

/// Putting one pair between its neighbours in key order puts it into the map.
pub proof fn pairs_map_insert<V>(
    pairs: Seq<(Seq<char>, V)>,
    at: int,
    key: Seq<char>,
    value: V,
)
    requires
        keys_ascend(pairs),
        0 <= at <= pairs.len(),
        forall|j: int| 0 <= j < at ==> text::text_before((#[trigger] pairs[j]).0, key),
        forall|j: int| at <= j < pairs.len() ==> text::text_before(key, (#[trigger] pairs[j]).0),
    ensures
        keys_ascend(pairs.insert(at, (key, value))),
        pairs_map(pairs.insert(at, (key, value))) == pairs_map(pairs).insert(key, value),
{
    let more = pairs.insert(at, (key, value));
    assert forall|a: int, b: int| 0 <= a < b < more.len() implies text::text_before(
        (#[trigger] more[a]).0,
        (#[trigger] more[b]).0,
    ) by {
        let x = if a < at { pairs[a] } else if a == at { (key, value) } else { pairs[a - 1] };
        let y = if b < at { pairs[b] } else if b == at { (key, value) } else { pairs[b - 1] };
        assert(more[a] == x && more[b] == y);
    }
    let m = pairs_map(more);
    let n = pairs_map(pairs).insert(key, value);
    assert forall|k: Seq<char>|
        #![trigger m.dom().contains(k)]
        #![trigger n.dom().contains(k)]
        m.dom().contains(k) == n.dom().contains(k) && (m.dom().contains(k) ==> m[k] == n[k]) by {
        pairs_map_keys(more, k);
        pairs_map_keys(pairs, k);
        if k == key {
            pairs_map_value(more, at);
        } else {
            if m.contains_key(k) {
                let i = choose|i: int| 0 <= i < more.len() && (#[trigger] more[i]).0 == k;
                pairs_map_value(more, i);
                let h = if i < at { i } else { i - 1 };
                assert(more[i] == pairs[h]);
                pairs_map_value(pairs, h);
            }
            if pairs_map(pairs).contains_key(k) {
                let i = choose|i: int| 0 <= i < pairs.len() && (#[trigger] pairs[i]).0 == k;
                let h = if i < at { i } else { i + 1 };
                assert(more[h] == pairs[i]);
            }
        }
    }
    assert(m =~= n);
}

/// Replacing the value of one pair replaces it in the map.
pub proof fn pairs_map_update<V>(pairs: Seq<(Seq<char>, V)>, at: int, value: V)
    requires
        keys_ascend(pairs),
        0 <= at < pairs.len(),
    ensures
        keys_ascend(pairs.update(at, (pairs[at].0, value))),
        pairs_map(pairs.update(at, (pairs[at].0, value))) == pairs_map(pairs).insert(
            pairs[at].0,
            value,
        ),
{
    let key = pairs[at].0;
    let more = pairs.update(at, (key, value));
    assert forall|a: int, b: int| 0 <= a < b < more.len() implies text::text_before(
        (#[trigger] more[a]).0,
        (#[trigger] more[b]).0,
    ) by {
        assert(more[a].0 == pairs[a].0 && more[b].0 == pairs[b].0);
    }
    let m = pairs_map(more);
    let n = pairs_map(pairs).insert(key, value);
    assert forall|k: Seq<char>|
        #![trigger m.dom().contains(k)]
        #![trigger n.dom().contains(k)]
        m.dom().contains(k) == n.dom().contains(k) && (m.dom().contains(k) ==> m[k] == n[k]) by {
        pairs_map_keys(more, k);
        pairs_map_keys(pairs, k);
        if k == key {
            pairs_map_value(more, at);
            assert(more[at].0 == k);
        } else {
            if m.contains_key(k) {
                let i = choose|i: int| 0 <= i < more.len() && (#[trigger] more[i]).0 == k;
                pairs_map_value(more, i);
                assert(more[i] == pairs[i]);
                pairs_map_value(pairs, i);
            }
            if pairs_map(pairs).contains_key(k) {
                let i = choose|i: int| 0 <= i < pairs.len() && (#[trigger] pairs[i]).0 == k;
                assert(more[i] == pairs[i]);
            }
        }
    }
    assert(m =~= n);
}

/// Leaving out one pair removes its key from the map.
pub proof fn pairs_map_remove<V>(pairs: Seq<(Seq<char>, V)>, at: int)
    requires
        keys_ascend(pairs),
        0 <= at < pairs.len(),
    ensures
        keys_ascend(pairs.remove(at)),
        pairs_map(pairs.remove(at)) == pairs_map(pairs).remove(pairs[at].0),
{
    let key = pairs[at].0;
    let less = pairs.remove(at);
    assert forall|a: int, b: int| 0 <= a < b < less.len() implies text::text_before(
        (#[trigger] less[a]).0,
        (#[trigger] less[b]).0,
    ) by {
        let x = if a < at { a } else { a + 1 };
        let y = if b < at { b } else { b + 1 };
        assert(less[a] == pairs[x] && less[b] == pairs[y]);
    }
    let m = pairs_map(less);
    let n = pairs_map(pairs).remove(key);
    assert forall|k: Seq<char>|
        #![trigger m.dom().contains(k)]
        #![trigger n.dom().contains(k)]
        m.dom().contains(k) == n.dom().contains(k) && (m.dom().contains(k) ==> m[k] == n[k]) by {
        pairs_map_keys(less, k);
        pairs_map_keys(pairs, k);
        if m.contains_key(k) {
            let i = choose|i: int| 0 <= i < less.len() && (#[trigger] less[i]).0 == k;
            let h = if i < at { i } else { i + 1 };
            assert(less[i] == pairs[h]);
            pairs_map_value(less, i);
            pairs_map_value(pairs, h);
            if h < at {
                text::text_before_asymmetric(pairs[h].0, pairs[at].0);
            } else {
                text::text_before_asymmetric(pairs[at].0, pairs[h].0);
            }
        }
        if n.contains_key(k) {
            let i = choose|i: int| 0 <= i < pairs.len() && (#[trigger] pairs[i]).0 == k;
            let h = if i < at { i } else { i - 1 };
            assert(less[h] == pairs[i]);
        }
    }
    assert(m =~= n);
}

/// Where the keys ascend, the map has as many keys as there are pairs.
pub proof fn pairs_map_count<V>(pairs: Seq<(Seq<char>, V)>)
    requires
        keys_ascend(pairs),
    ensures
        pairs_map(pairs).dom().finite(),
        pairs_map(pairs).dom().len() == pairs.len(),
    decreases pairs.len(),
{
    pairs_map_finite(pairs);
    if pairs.len() > 0 {
        let rest = pairs.drop_last();
        assert forall|a: int, b: int| 0 <= a < b < rest.len() implies text::text_before(
            (#[trigger] rest[a]).0,
            (#[trigger] rest[b]).0,
        ) by {
            assert(rest[a] == pairs[a] && rest[b] == pairs[b]);
        }
        pairs_map_count(rest);
        pairs_map_keys(rest, pairs.last().0);
        if pairs_map(rest).contains_key(pairs.last().0) {
            let i = choose|i: int| 0 <= i < rest.len() && (#[trigger] rest[i]).0 == pairs.last().0;
            assert(pairs[i] == rest[i]);
            text::text_before_asymmetric(pairs[i].0, pairs[pairs.len() - 1].0);
        }
        assert(pairs_map(pairs).dom() =~= pairs_map(rest).dom().insert(pairs.last().0));
    } else {
        assert(pairs_map(pairs).dom() =~= Set::<Seq<char>>::empty());
    }
}

} // verus!
