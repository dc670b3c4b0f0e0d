//! A map from texts to values, kept in ascending order of its keys.

use vstd::prelude::*;

use crate::pairs;
use crate::text;

verus! {

broadcast use vstd::map::group_map_axioms;

/// A map from texts to values.
#[derive(Debug)]
pub struct TextMap<V> {
    entries: Vec<(String, V)>,
}

impl<V> View for TextMap<V> {
    type V = Map<Seq<char>, V>;

    open spec fn view(&self) -> Map<Seq<char>, V> {
        pairs::pairs_map(self.pairs())
    }
}

impl<V> TextMap<V> {
    /// The entries as key and value, in ascending order of the keys.
    pub closed spec fn pairs(&self) -> Seq<(Seq<char>, V)> {
        self.entries@.map_values(|e: (String, V)| (e.0@, e.1))
    }

    #[verifier::type_invariant]
    spec fn sorted(&self) -> bool {
        pairs::keys_ascend(self.pairs())
    }

    /// The map without entries.
    pub fn new() -> (r: TextMap<V>)
        ensures
            r@ == Map::<Seq<char>, V>::empty(),
    {
        let entries: Vec<(String, V)> = Vec::new();
        let r = TextMap { entries };
        assert(r.pairs() =~= Seq::<(Seq<char>, V)>::empty());
        r
    }

    /// Where `key` stands, or where it would have to be put.
    fn position(&self, key: &str) -> (r: (usize, bool))
        ensures
            pairs::keys_ascend(self.pairs()),
            self.pairs().len() == self.entries@.len(),
            r.0 <= self.pairs().len(),
            forall|j: int| 0 <= j < r.0 ==> text::text_before((#[trigger] self.pairs()[j]).0, key@),
            r.1 ==> r.0 < self.pairs().len() && self.pairs()[r.0 as int].0 == key@,
            !r.1 ==> forall|j: int|
                r.0 <= j < self.pairs().len() ==> text::text_before(
                    key@,
                    (#[trigger] self.pairs()[j]).0,
                ),
            self@.contains_key(key@) == r.1,
    {
        proof {
            use_type_invariant(self);
        }
        let mut i: usize = 0;
        while i < self.entries.len() && text::comes_before(&self.entries[i].0, key)
            invariant
                i <= self.entries@.len(),
                self.pairs().len() == self.entries@.len(),
                forall|j: int|
                    0 <= j < i ==> text::text_before((#[trigger] self.pairs()[j]).0, key@),
            decreases self.entries@.len() - i,
        {
            assert(self.pairs()[i as int].0 == self.entries@[i as int].0@);
            i += 1;
        }
        let found: bool = i < self.entries.len() && text::same_text(&self.entries[i].0, key);
        proof {
            pairs::pairs_map_keys(self.pairs(), key@);
            if found {
                assert(self.pairs()[i as int].0 == key@);
            } else {
                if i < self.entries@.len() {
                    assert(self.pairs()[i as int].0 == self.entries@[i as int].0@);
                    text::text_before_total(self.pairs()[i as int].0, key@);
                }
                assert forall|j: int| i <= j < self.pairs().len() implies text::text_before(
                    key@,
                    (#[trigger] self.pairs()[j]).0,
                ) by {
                    if j > i {
                        text::text_before_transitive(
                            key@,
                            self.pairs()[i as int].0,
                            self.pairs()[j].0,
                        );
                    }
                }
                if self@.contains_key(key@) {
                    let h = choose|h: int|
                        0 <= h < self.pairs().len() && (#[trigger] self.pairs()[h]).0 == key@;
                    text::text_before_irreflexive(key@);
                }
            }
        }
        (i, found)
    }

    /// The value of `key`, where there is one.
    pub fn get(&self, key: &str) -> (r: Option<&V>)
        ensures
            r is Some <==> self@.contains_key(key@),
            r matches Some(v) ==> *v == self@[key@],
    {
        let (at, found) = self.position(key);
        if found {
            proof {
                pairs::pairs_map_value(self.pairs(), at as int);
            }
            Some(&self.entries[at].1)
        } else {
            None
        }
    }

    /// Whether there is a value for `key`.
    pub fn contains_key(&self, key: &str) -> (r: bool)
        ensures
            r == self@.contains_key(key@),
    {
        let (at, found) = self.position(key);
        found
    }

    /// The number of entries. The pairs of key and value in ascending order of
    /// the keys spell the map.
    pub fn len(&self) -> (r: usize)
        ensures
            r == self.pairs().len(),
            pairs::keys_ascend(self.pairs()),
    {
        proof {
            use_type_invariant(self);
        }
        self.entries.len()
    }

    /// The `i`-th key in ascending order.
    pub fn key_at(&self, i: usize) -> (r: &String)
        requires
            i < self.pairs().len(),
        ensures
            r@ == self.pairs()[i as int].0,
    {
        &self.entries[i].0
    }

    /// The value of the `i`-th key in ascending order.
    pub fn value_at(&self, i: usize) -> (r: &V)
        requires
            i < self.pairs().len(),
        ensures
            *r == self.pairs()[i as int].1,
    {
        &self.entries[i].1
    }

    /// Sets the value of `key`.
    pub fn insert(&mut self, key: String, value: V)
        ensures
            final(self)@ == old(self)@.insert(key@, value),
    {
        let (at, found) = self.position(&key);
        let ghost before = self.pairs();
        let mut entries: Vec<(String, V)> = Vec::new();
        std::mem::swap(&mut entries, &mut self.entries);
        let ghost name = key@;
        if found {
            entries.set(at, (key, value));
            proof {
                pairs::pairs_map_update(before, at as int, value);
                let now = TextMap { entries };
                assert(now.pairs() =~= before.update(at as int, (name, value)));
            }
        } else {
            entries.insert(at, (key, value));
            proof {
                pairs::pairs_map_insert(before, at as int, name, value);
                let now = TextMap { entries };
                assert(now.pairs() =~= before.insert(at as int, (name, value)));
            }
        }
        self.entries = entries;
    }

    /// The keys, in ascending order.
    pub fn keys(&self) -> (r: Vec<String>)
        ensures
            text::ascending(text::texts(r@)),
            forall|k: Seq<char>|
                self@.contains_key(k) <==> #[trigger] text::texts(r@).contains(k),
            r@.len() == self.pairs().len(),
    {
        proof {
            use_type_invariant(self);
        }
        let mut r: Vec<String> = Vec::new();
        let mut i: usize = 0;
        while i < self.entries.len()
            invariant
                i <= self.entries@.len(),
                r@.len() == i,
                forall|j: int| 0 <= j < i ==> (#[trigger] r@[j])@ == self.entries@[j].0@,
            decreases self.entries@.len() - i,
        {
            r.push(self.entries[i].0.clone());
            i += 1;
        }
        proof {
            let names = text::texts(r@);
            let pairs = self.pairs();
            assert forall|a: int, b: int| 0 <= a < b < names.len() implies text::text_before(
                names[a],
                names[b],
            ) by {
                assert(names[a] == pairs[a].0 && names[b] == pairs[b].0);
            }
            assert forall|k: Seq<char>|
                self@.contains_key(k) <==> #[trigger] names.contains(k) by {
                pairs::pairs_map_keys(pairs, k);
                if self@.contains_key(k) {
                    let h = choose|h: int| 0 <= h < pairs.len() && (#[trigger] pairs[h]).0 == k;
                    assert(names[h] == k);
                }
                if names.contains(k) {
                    let h = choose|h: int| 0 <= h < names.len() && names[h] == k;
                    assert(pairs[h].0 == k);
                }
            }
        }
        r
    }
}

} // verus!
