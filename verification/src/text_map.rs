//! A map keyed by text that keeps its entries in insertion order.
//!
//! It stands where a hash map keyed by `String` would: vstd gives `String`
//! no key model, so nothing could be proved of what such a map holds, and
//! its own map of texts cannot be walked, which writing the entries out
//! needs.
use vstd::prelude::*;

verus! {

/// A finite map from text to `V`.
///
/// No key occurs twice. Entries stay in the order in which their keys were
/// first inserted, so the map can be walked by position.
pub struct TextMap<V> {
    entries: Vec<(String, V)>,
}

/// Whether `key` is the key of the entry at `i`.
pub open spec fn key_at_is<V>(entries: Seq<(String, V)>, i: int, key: Seq<char>) -> bool {
    0 <= i < entries.len() && entries[i].0@ == key
}

/// Whether no key occurs twice in `entries`.
pub open spec fn distinct_keys<V>(entries: Seq<(String, V)>) -> bool {
    forall|i: int, j: int|
        0 <= i < j < entries.len() ==> (#[trigger] entries[i]).0@ != (#[trigger] entries[j]).0@
}

/// `keys` without `key`, the others in their order.
pub open spec fn keys_without(keys: Seq<Seq<char>>, key: Seq<char>) -> Seq<Seq<char>> {
    if keys.contains(key) {
        keys.remove(keys.index_of(key))
    } else {
        keys
    }
}

impl<V> TextMap<V> {
    /// Whether the map is well formed: no key occurs twice. `new` gives such
    /// a map and every operation keeps it so.
    pub closed spec fn wf(&self) -> bool {
        distinct_keys(self.entries@)
    }

    /// The keys, in insertion order.
    pub closed spec fn keys(&self) -> Seq<Seq<char>> {
        Seq::new(self.entries@.len(), |i: int| self.entries@[i].0@)
    }

    /// The values, in the order of their keys.
    pub closed spec fn values(&self) -> Seq<V> {
        Seq::new(self.entries@.len(), |i: int| self.entries@[i].1)
    }

    /// The map as a mathematical map.
    pub closed spec fn view(&self) -> Map<Seq<char>, V> {
        Map::new(
            |k: Seq<char>| exists|i: int| key_at_is(self.entries@, i, k),
            |k: Seq<char>| self.entries@[choose|i: int| key_at_is(self.entries@, i, k)].1,
        )
    }

    /// The keys are distinct and the view maps each key to the value at its
    /// position.
    pub proof fn lemma_view(&self)
        requires
            self.wf(),
        ensures
            self.keys().len() == self.values().len(),
            forall|i: int, j: int|
                0 <= i < j < self.keys().len() ==> self.keys()[i] != self.keys()[j],
            forall|i: int|
                0 <= i < self.keys().len() ==> self@.contains_key(#[trigger] self.keys()[i])
                    && self@[self.keys()[i]] == self.values()[i],
            forall|k: Seq<char>| self@.contains_key(k) ==> self.keys().contains(k),
    {
        assert forall|i: int| 0 <= i < self.keys().len() implies self@.contains_key(
            #[trigger] self.keys()[i],
        ) && self@[self.keys()[i]] == self.values()[i] by {
            let k = self.keys()[i];
            assert(key_at_is(self.entries@, i, k));
            let c = choose|c: int| key_at_is(self.entries@, c, k);
            assert(c == i);
        }
        assert forall|k: Seq<char>| self@.contains_key(k) implies self.keys().contains(k) by {
            let c = choose|c: int| key_at_is(self.entries@, c, k);
            assert(self.keys()[c] == k);
        }
    }

    /// An empty map.
    pub fn new() -> (r: Self)
        ensures
            r.wf(),
            r.keys() == Seq::<Seq<char>>::empty(),
            r@ == Map::<Seq<char>, V>::empty(),
    {
        let r = TextMap { entries: Vec::new() };
        assert(r.keys() =~= Seq::<Seq<char>>::empty());
        assert(r@ =~= Map::<Seq<char>, V>::empty());
        r
    }

    /// The number of entries.
    pub fn len(&self) -> (r: usize)
        ensures
            r == self.keys().len(),
    {
        self.entries.len()
    }

    /// The position of `key`, if the map holds it.
    pub fn position(&self, key: &str) -> (r: Option<usize>)
        requires
            self.wf(),
        ensures
            match r {
                Some(i) => i < self.keys().len() && self.keys()[i as int] == key@
                    && self@.contains_key(key@),
                None => !self@.contains_key(key@) && !self.keys().contains(key@),
            },
    {
        let wanted = String::from_str(key);
        let mut i: usize = 0;
        while i < self.entries.len()
            invariant
                i <= self.entries.len(),
                wanted@ == key@,
                forall|k: int| 0 <= k < i ==> self.entries@[k].0@ != key@,
            decreases self.entries.len() - i,
        {
            if self.entries[i].0 == wanted {
                assert(key_at_is(self.entries@, i as int, key@));
                return Some(i);
            }
            i += 1;
        }
        assert(!self.keys().contains(key@));
        None
    }

    /// The key at position `i`.
    pub fn key_at(&self, i: usize) -> (r: &String)
        requires
            i < self.keys().len(),
        ensures
            r@ == self.keys()[i as int],
    {
        &self.entries[i].0
    }

    /// The value at position `i`.
    pub fn value_at(&self, i: usize) -> (r: &V)
        requires
            i < self.keys().len(),
            self.wf(),
        ensures
            *r == self.values()[i as int],
            self.values().len() == self.keys().len(),
            self@.contains_key(self.keys()[i as int]),
            *r == self@[self.keys()[i as int]],
    {
        proof {
            self.lemma_view();
        }
        &self.entries[i].1
    }

    /// The value of `key`, if the map holds it.
    pub fn get(&self, key: &str) -> (r: Option<&V>)
        requires
            self.wf(),
        ensures
            match r {
                Some(v) => self@.contains_key(key@) && *v == self@[key@],
                None => !self@.contains_key(key@),
            },
    {
        match self.position(key) {
            Some(i) => {
                proof {
                    self.lemma_view();
                }
                Some(&self.entries[i].1)
            },
            None => None,
        }
    }

    /// Whether the map holds `key`.
    pub fn contains_key(&self, key: &str) -> (r: bool)
        requires
            self.wf(),
        ensures
            r == self@.contains_key(key@),
    {
        self.position(key).is_some()
    }

    /// Maps `key` to `value`. A key that was there keeps its position; a new
    /// key goes to the end.
    pub fn insert(&mut self, key: String, value: V)
        requires
            old(self).wf(),
        ensures
            final(self).wf(),
            final(self)@ == old(self)@.insert(key@, value),
            old(self)@.contains_key(key@) ==> final(self).keys() == old(self).keys(),
            !old(self)@.contains_key(key@) ==> final(self).keys() == old(self).keys().push(key@),
    {
        proof {
            self.lemma_view();
        }
        let ghost before = *self;
        match self.position(key.as_str()) {
            Some(i) => {
                self.entries.set(i, (key, value));
                proof {
                    assert(distinct_keys(self.entries@));
                    assert(self.keys() =~= before.keys());
                    self.lemma_view();
                    assert(self@ =~= before@.insert(key@, value)) by {
                        assert forall|k: Seq<char>| self@.contains_key(k) <==> before@.insert(
                            key@,
                            value,
                        ).contains_key(k) by {
                            if self@.contains_key(k) {
                                let c = choose|c: int| key_at_is(self.entries@, c, k);
                                assert(key_at_is(before.entries@, c, k));
                            }
                            if before@.contains_key(k) {
                                let c = choose|c: int| key_at_is(before.entries@, c, k);
                                assert(key_at_is(self.entries@, c, k));
                            }
                            if k == key@ {
                                assert(key_at_is(self.entries@, i as int, k));
                            }
                        }
                        assert forall|k: Seq<char>| self@.contains_key(k) implies self@[k]
                            == before@.insert(key@, value)[k] by {
                            let c = choose|c: int| key_at_is(self.entries@, c, k);
                            assert(self.keys()[c] == k);
                            assert(self@[k] == self.values()[c]);
                            if k != key@ {
                                assert(c != i);
                                assert(before.keys()[c] == k);
                                assert(before@[k] == before.values()[c]);
                            } else {
                                assert(c == i);
                            }
                        }
                    }
                }
            },
            None => {
                self.entries.push((key, value));
                proof {
                    let n = before.entries@.len() as int;
                    assert forall|a: int, b: int| 0 <= a < b < self.entries@.len() implies (
                    #[trigger] self.entries@[a]).0@ != (#[trigger] self.entries@[b]).0@ by {
                        if b == n {
                            assert(before.keys()[a] == self.entries@[a].0@);
                        } else {
                            assert(self.entries@[a] == before.entries@[a]);
                            assert(self.entries@[b] == before.entries@[b]);
                        }
                    }
                    assert(self.keys() =~= before.keys().push(key@));
                    self.lemma_view();
                    assert(self@ =~= before@.insert(key@, value)) by {
                        assert forall|k: Seq<char>| self@.contains_key(k) <==> before@.insert(
                            key@,
                            value,
                        ).contains_key(k) by {
                            if self@.contains_key(k) {
                                let c = choose|c: int| key_at_is(self.entries@, c, k);
                                if c < n {
                                    assert(key_at_is(before.entries@, c, k));
                                }
                            }
                            if before@.contains_key(k) {
                                let c = choose|c: int| key_at_is(before.entries@, c, k);
                                assert(key_at_is(self.entries@, c, k));
                            }
                            if k == key@ {
                                assert(key_at_is(self.entries@, n, k));
                            }
                        }
                        assert forall|k: Seq<char>| self@.contains_key(k) implies self@[k]
                            == before@.insert(key@, value)[k] by {
                            let c = choose|c: int| key_at_is(self.entries@, c, k);
                            assert(self.keys()[c] == k);
                            assert(self@[k] == self.values()[c]);
                            if c < n {
                                assert(before.keys()[c] == k);
                                assert(before@[k] == before.values()[c]);
                            }
                        }
                    }
                }
            },
        }
    }

    /// Removes `key` and returns whether it was there. The other entries keep
    /// their order.
    pub fn remove(&mut self, key: &str) -> (r: bool)
        requires
            old(self).wf(),
        ensures
            final(self).wf(),
            r == old(self)@.contains_key(key@),
            final(self)@ == old(self)@.remove(key@),
            final(self).keys() == keys_without(old(self).keys(), key@),
    {
        proof {
            self.lemma_view();
        }
        let ghost before = *self;
        match self.position(key) {
            Some(i) => {
                self.entries.remove(i);
                proof {
                    let n = before.entries@.len() as int;
                    assert forall|a: int| 0 <= a < self.entries@.len() implies self.entries@[a]
                        == before.entries@[if a < i { a } else { a + 1 }] by {}
                    assert(distinct_keys(self.entries@));
                    assert(self.keys() =~= before.keys().remove(i as int));
                    assert(before.keys()[i as int] == key@);
                    assert(before.keys().index_of(key@) == i);
                    self.lemma_view();
                    assert(self@ =~= before@.remove(key@)) by {
                        assert forall|k: Seq<char>| self@.contains_key(k) <==> before@.remove(
                            key@,
                        ).contains_key(k) by {
                            if self@.contains_key(k) {
                                let c = choose|c: int| key_at_is(self.entries@, c, k);
                                let d = if c < i { c } else { c + 1 };
                                assert(key_at_is(before.entries@, d, k));
                                assert(before.keys()[d] == k);
                            }
                            if before@.contains_key(k) && k != key@ {
                                let c = choose|c: int| key_at_is(before.entries@, c, k);
                                assert(c != i);
                                let d = if c < i { c } else { c - 1 };
                                assert(key_at_is(self.entries@, d, k));
                            }
                        }
                        assert forall|k: Seq<char>| self@.contains_key(k) implies self@[k]
                            == before@.remove(key@)[k] by {
                            let c = choose|c: int| key_at_is(self.entries@, c, k);
                            let d = if c < i { c } else { c + 1 };
                            assert(self.keys()[c] == k);
                            assert(before.keys()[d] == k);
                            assert(self@[k] == self.values()[c]);
                            assert(before@[k] == before.values()[d]);
                        }
                    }
                }
                true
            },
            None => {
                proof {
                    assert(self@ =~= before@.remove(key@));
                }
                false
            },
        }
    }

    /// Removes every entry.
    pub fn clear(&mut self)
        ensures
            final(self).wf(),
            final(self)@ == Map::<Seq<char>, V>::empty(),
            final(self).keys() == Seq::<Seq<char>>::empty(),
    {
        self.entries.clear();
        assert(self.keys() =~= Seq::<Seq<char>>::empty());
        assert(self@ =~= Map::<Seq<char>, V>::empty());
    }
}

} // verus!
