//! A small map keyed by strings, kept as a list of entries with distinct keys.
//! It is viewed as a `Map` from the key's characters to the value's view, and
//! its entries can be walked by index in a stable order.

use vstd::prelude::*;

use crate::text::str_eq;

verus! {

/// String-keyed map; no key occurs twice.
pub struct StrMap<V: View> {
    entries: Vec<(String, V)>,
}

impl<V: View> StrMap<V> {
    #[verifier::type_invariant]
    pub closed spec fn keys_distinct(self) -> bool {
        forall|i: int, j: int|
            0 <= i < j < self.entries@.len() ==> #[trigger] self.entries@[i].0@
                != #[trigger] self.entries@[j].0@
    }

    /// The keys in entry order.
    pub closed spec fn keys(self) -> Seq<Seq<char>> {
        self.entries@.map_values(|e: (String, V)| e.0@)
    }

    /// The values' views in entry order.
    pub closed spec fn vals(self) -> Seq<V::V> {
        self.entries@.map_values(|e: (String, V)| e.1@)
    }

    /// Number of entries.
    pub closed spec fn size(self) -> nat {
        self.entries@.len()
    }

    /// The map: each key to its value's view.
    pub closed spec fn map(self) -> Map<Seq<char>, V::V> {
        Map::new(
            |k: Seq<char>| exists|i: int| 0 <= i < self.entries@.len() && self.entries@[i].0@ == k,
            |k: Seq<char>|
                self.entries@[choose|i: int|
                    0 <= i < self.entries@.len() && self.entries@[i].0@ == k].1@,
        )
    }

    proof fn lemma_map_at(self, i: int)
        requires
            self.keys_distinct(),
            0 <= i < self.entries@.len(),
        ensures
            self.map().contains_key(self.entries@[i].0@),
            self.map()[self.entries@[i].0@] == self.entries@[i].1@,
    {
        let k = self.entries@[i].0@;
        assert(self.map().dom().contains(k));
        let j = choose|j: int| 0 <= j < self.entries@.len() && self.entries@[j].0@ == k;
        if j != i {
            if j < i {
                assert(self.entries@[j].0@ != self.entries@[i].0@);
            } else {
                assert(self.entries@[i].0@ != self.entries@[j].0@);
            }
        }
    }

    /// Facts that tie the entry list to the map; every caller may rely on them.
    pub proof fn lemma_view(self)
        requires
            self.keys_distinct(),
        ensures
            self.keys().len() == self.size(),
            self.vals().len() == self.size(),
            forall|i: int|
                0 <= i < self.size() ==> #[trigger] self.map().contains_key(self.keys()[i])
                    && self.map()[self.keys()[i]] == self.vals()[i],
            forall|k: Seq<char>|
                #[trigger] self.map().contains_key(k) ==> exists|i: int|
                    0 <= i < self.size() && self.keys()[i] == k,
            forall|i: int, j: int|
                0 <= i < j < self.size() ==> #[trigger] self.keys()[i] != #[trigger] self.keys()[j],
            self.map().dom().finite(),
            self.map().dom().len() == self.size(),
    {
        assert forall|i: int| 0 <= i < self.size() implies #[trigger] self.map().contains_key(
            self.keys()[i],
        ) && self.map()[self.keys()[i]] == self.vals()[i] by {
            self.lemma_map_at(i);
        }
        assert forall|k: Seq<char>| #[trigger] self.map().contains_key(k) implies exists|i: int|
            0 <= i < self.size() && self.keys()[i] == k by {
            let i = choose|i: int| 0 <= i < self.entries@.len() && self.entries@[i].0@ == k;
            assert(self.keys()[i] == k);
        }
        self.lemma_dom_is_keys();
        assert(self.keys().no_duplicates()) by {
            assert forall|i: int, j: int|
                0 <= i < self.keys().len() && 0 <= j < self.keys().len() && i != j implies self.keys()[i]
                != self.keys()[j] by {
                if i < j {
                    assert(self.entries@[i].0@ != self.entries@[j].0@);
                } else {
                    assert(self.entries@[j].0@ != self.entries@[i].0@);
                }
            }
        }
        self.keys().unique_seq_to_set();
        vstd::seq_lib::seq_to_set_is_finite(self.keys());
    }

    proof fn lemma_dom_is_keys(self)
        ensures
            self.map().dom() == self.keys().to_set(),
    {
        assert forall|k: Seq<char>| self.map().dom().contains(k) <==> self.keys().to_set().contains(
            k,
        ) by {
            if self.map().dom().contains(k) {
                let i = choose|i: int| 0 <= i < self.entries@.len() && self.entries@[i].0@ == k;
                assert(self.keys()[i] == k);
            }
            if self.keys().to_set().contains(k) {
                let i = choose|i: int| 0 <= i < self.keys().len() && self.keys()[i] == k;
                assert(self.entries@[i].0@ == k);
            }
        }
        assert(self.map().dom() =~= self.keys().to_set());
    }

    /// An empty map.
    pub fn new() -> (r: Self)
        ensures
            r.map() == Map::<Seq<char>, V::V>::empty(),
            r.size() == 0,
    {
        let r = StrMap { entries: Vec::new() };
        assert(r.map() =~= Map::<Seq<char>, V::V>::empty());
        r
    }

    /// Number of entries.
    pub fn len(&self) -> (n: usize)
        ensures
            n == self.size(),
    {
        self.entries.len()
    }

    /// The key of entry `i`.
    pub fn key_at(&self, i: usize) -> (k: &String)
        requires
            i < self.size(),
        ensures
            k@ == self.keys()[i as int],
    {
        &self.entries[i].0
    }

    /// The value of entry `i`.
    pub fn value_at(&self, i: usize) -> (v: &V)
        requires
            i < self.size(),
        ensures
            v@ == self.vals()[i as int],
    {
        &self.entries[i].1
    }

    /// The index of the entry with key `k`, if any.
    pub fn find(&self, k: &str) -> (r: Option<usize>)
        ensures
            r matches Some(i) ==> i < self.size() && self.keys()[i as int] == k@,
            r is None <==> !self.map().contains_key(k@),
    {
        proof {
            use_type_invariant(self);
            self.lemma_view();
        }
        let mut i: usize = 0;
        while i < self.entries.len()
            invariant
                i <= self.entries@.len(),
                forall|j: int| 0 <= j < i ==> self.entries@[j].0@ != k@,
            decreases self.entries@.len() - i,
        {
            if str_eq(self.entries[i].0.as_str(), k) {
                return Some(i);
            }
            i = i + 1;
        }
        proof {
            if self.map().contains_key(k@) {
                let j = choose|j: int| 0 <= j < self.size() && self.keys()[j] == k@;
                assert(self.entries@[j].0@ == k@);
            }
        }
        None
    }

    /// Whether `k` is a key.
    pub fn contains_key(&self, k: &str) -> (r: bool)
        ensures
            r == self.map().contains_key(k@),
    {
        self.find(k).is_some()
    }

    /// The value under `k`, if any.
    pub fn get(&self, k: &str) -> (r: Option<&V>)
        ensures
            r is Some <==> self.map().contains_key(k@),
            r matches Some(v) ==> v@ == self.map()[k@],
    {
        proof {
            use_type_invariant(self);
            self.lemma_view();
        }
        match self.find(k) {
            Some(i) => Some(&self.entries[i].1),
            None => None,
        }
    }

    /// Puts `v` under `k`, giving back the value it replaces, if any. A new key
    /// goes after all others; a present key keeps its place.
    pub fn insert(&mut self, k: String, v: V) -> (r: Option<V>)
        ensures
            final(self).map() == old(self).map().insert(k@, v@),
            r is Some <==> old(self).map().contains_key(k@),
            r matches Some(o) ==> o@ == old(self).map()[k@],
            old(self).map().contains_key(k@) ==> final(self).keys() == old(self).keys(),
            !old(self).map().contains_key(k@) ==> final(self).keys() == old(self).keys().push(k@),
    {
        proof {
            use_type_invariant(&*self);
            self.lemma_view();
        }
        let ghost k_view = k@;
        let ghost v_view = v@;
        let ghost old_self = *self;
        match self.find(k.as_str()) {
            Some(i) => {
                let mut old_entry = (k, v);
                let mut es: Vec<(String, V)> = Vec::new();
                std::mem::swap(&mut es, &mut self.entries);
                std::mem::swap(&mut es[i], &mut old_entry);
                proof {
                    assert forall|a: int, b: int|
                        0 <= a < b < es@.len() implies #[trigger] es@[a].0@ != #[trigger] es@[b].0@ by {
                        assert(old_self.keys()[a] == es@[a].0@);
                        assert(old_self.keys()[b] == es@[b].0@);
                    }
                }
                std::mem::swap(&mut es, &mut self.entries);
                assert(self.entries@ =~= old_self.entries@.update(i as int, self.entries@[i as int]));
                assert(self.keys() =~= old_self.keys());
                proof {
                    use_type_invariant(&*self);
                    self.lemma_view();
                    old_self.lemma_view();
                    assert forall|key: Seq<char>| self.map().contains_key(key) <==> old_self.map().insert(
                        k_view,
                        v_view,
                    ).contains_key(key) by {
                        if self.map().contains_key(key) {
                            let j = choose|j: int| 0 <= j < self.size() && self.keys()[j] == key;
                            assert(old_self.keys()[j] == key);
                        }
                        if old_self.map().contains_key(key) {
                            let j = choose|j: int| 0 <= j < old_self.size() && old_self.keys()[j] == key;
                            assert(self.keys()[j] == key);
                        }
                    }
                    assert forall|key: Seq<char>| #[trigger] self.map().contains_key(key) implies self.map()[key]
                        == old_self.map().insert(k_view, v_view)[key] by {
                        let j = choose|j: int| 0 <= j < self.size() && self.keys()[j] == key;
                        if j != i {
                            assert(self.vals()[j] == old_self.vals()[j]);
                            assert(old_self.keys()[j] == key);
                        }
                    }
                    assert(self.map() =~= old_self.map().insert(k_view, v_view));
                }
                Some(old_entry.1)
            },
            None => {
                let mut es: Vec<(String, V)> = Vec::new();
                std::mem::swap(&mut es, &mut self.entries);
                es.push((k, v));
                proof {
                    assert forall|a: int, b: int|
                        0 <= a < b < es@.len() implies #[trigger] es@[a].0@ != #[trigger] es@[b].0@ by {
                        if b == es@.len() - 1 {
                            assert(old_self.keys()[a] == es@[a].0@);
                        } else {
                            assert(old_self.entries@[a] == es@[a]);
                            assert(old_self.entries@[b] == es@[b]);
                        }
                    }
                }
                std::mem::swap(&mut es, &mut self.entries);
                proof {
                    assert(self.keys() =~= old_self.keys().push(k_view));
                    assert forall|a: int, b: int|
                        0 <= a < b < self.entries@.len() implies #[trigger] self.entries@[a].0@
                        != #[trigger] self.entries@[b].0@ by {
                        if b == self.entries@.len() - 1 {
                            assert(old_self.keys()[a] == self.entries@[a].0@);
                        } else {
                            assert(old_self.entries@[a] == self.entries@[a]);
                            assert(old_self.entries@[b] == self.entries@[b]);
                        }
                    }
                }
                proof {
                    use_type_invariant(&*self);
                    self.lemma_view();
                    old_self.lemma_view();
                    assert forall|key: Seq<char>| self.map().contains_key(key) <==> old_self.map().insert(
                        k_view,
                        v_view,
                    ).contains_key(key) by {
                        if self.map().contains_key(key) {
                            let j = choose|j: int| 0 <= j < self.size() && self.keys()[j] == key;
                            if j < old_self.size() {
                                assert(old_self.keys()[j] == key);
                            }
                        }
                        if old_self.map().contains_key(key) {
                            let j = choose|j: int| 0 <= j < old_self.size() && old_self.keys()[j] == key;
                            assert(self.keys()[j] == key);
                        }
                        if key == k_view {
                            assert(self.keys()[old_self.size() as int] == key);
                        }
                    }
                    assert forall|key: Seq<char>| #[trigger] self.map().contains_key(key) implies self.map()[key]
                        == old_self.map().insert(k_view, v_view)[key] by {
                        let j = choose|j: int| 0 <= j < self.size() && self.keys()[j] == key;
                        if j < old_self.size() {
                            assert(self.vals()[j] == old_self.vals()[j]);
                            assert(old_self.keys()[j] == key);
                        }
                    }
                    assert(self.map() =~= old_self.map().insert(k_view, v_view));
                }
                None
            },
        }
    }

    /// Takes the entry under `k` out, if any; the others keep their order.
    pub fn remove(&mut self, k: &str) -> (r: Option<V>)
        ensures
            final(self).map() == old(self).map().remove(k@),
            r is Some <==> old(self).map().contains_key(k@),
            r matches Some(o) ==> o@ == old(self).map()[k@],
    {
        proof {
            use_type_invariant(&*self);
            self.lemma_view();
        }
        let ghost old_self = *self;
        match self.find(k) {
            Some(i) => {
                let mut es: Vec<(String, V)> = Vec::new();
                std::mem::swap(&mut es, &mut self.entries);
                let e = es.remove(i);
                proof {
                    assert forall|a: int, b: int|
                        0 <= a < b < es@.len() implies #[trigger] es@[a].0@ != #[trigger] es@[b].0@ by {
                        let oa = if a < i { a } else { a + 1 };
                        let ob = if b < i { b } else { b + 1 };
                        assert(old_self.entries@[oa] == es@[a]);
                        assert(old_self.entries@[ob] == es@[b]);
                        assert(old_self.keys()[oa] == es@[a].0@);
                        assert(old_self.keys()[ob] == es@[b].0@);
                    }
                }
                std::mem::swap(&mut es, &mut self.entries);
                proof {
                    assert(self.keys() =~= old_self.keys().remove(i as int));
                    assert(self.vals() =~= old_self.vals().remove(i as int));
                    assert forall|a: int, b: int|
                        0 <= a < b < self.entries@.len() implies #[trigger] self.entries@[a].0@
                        != #[trigger] self.entries@[b].0@ by {
                        assert(self.keys()[a] == self.entries@[a].0@);
                        assert(self.keys()[b] == self.entries@[b].0@);
                        let oa = if a < i { a } else { a + 1 };
                        let ob = if b < i { b } else { b + 1 };
                        assert(old_self.keys()[oa] == self.keys()[a]);
                        assert(old_self.keys()[ob] == self.keys()[b]);
                    }
                }
                proof {
                    use_type_invariant(&*self);
                    self.lemma_view();
                    old_self.lemma_view();
                    assert forall|key: Seq<char>| self.map().contains_key(key) <==> old_self.map().remove(
                        k@,
                    ).contains_key(key) by {
                        if self.map().contains_key(key) {
                            let j = choose|j: int| 0 <= j < self.size() && self.keys()[j] == key;
                            let oj = if j < i { j } else { j + 1 };
                            assert(old_self.keys()[oj] == key);
                            assert(oj != i);
                        }
                        if old_self.map().contains_key(key) && key != k@ {
                            let j = choose|j: int| 0 <= j < old_self.size() && old_self.keys()[j] == key;
                            assert(j != i);
                            let nj = if j < i { j } else { j - 1 };
                            assert(self.keys()[nj] == key);
                        }
                    }
                    assert forall|key: Seq<char>| #[trigger] self.map().contains_key(key) implies self.map()[key]
                        == old_self.map().remove(k@)[key] by {
                        let j = choose|j: int| 0 <= j < self.size() && self.keys()[j] == key;
                        let oj = if j < i { j } else { j + 1 };
                        assert(old_self.keys()[oj] == key);
                        assert(old_self.vals()[oj] == self.vals()[j]);
                    }
                    assert(self.map() =~= old_self.map().remove(k@));
                    assert(old_self.vals()[i as int] == e.1@);
                }
                Some(e.1)
            },
            None => {
                assert(old_self.map().remove(k@) =~= old_self.map());
                None
            },
        }
    }
}

} // verus!
