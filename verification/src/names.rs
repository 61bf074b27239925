//! A small insertion-ordered table keyed by name.
//!
//! Configuration and parameter state are keyed by short names; the tables are
//! small and rebuilt on every reload, so a vector of entries with distinct
//! keys is all that is needed.

use vstd::prelude::*;
use crate::text::{insert_sorted, lemma_ascending, spec_ascending, spec_sorted, str_eq, views};

verus! {

/// One entry of a [`NameMap`].
pub struct Entry<V> {
    pub key: String,
    pub value: V,
}

/// A table from names to values in which every name occurs at most once.
pub struct NameMap<V> {
    entries: Vec<Entry<V>>,
}

impl<V> NameMap<V> {
    /// No two entries share a key.
    pub closed spec fn wf(&self) -> bool {
        forall|i: int, j: int|
            0 <= i < j < self.entries@.len() ==> self.entries@[i].key@ != self.entries@[j].key@
    }

    /// The keys in insertion order.
    pub closed spec fn keys(&self) -> Seq<Seq<char>> {
        Seq::new(self.entries@.len(), |i: int| self.entries@[i].key@)
    }

    /// The values, in the order of [`Self::keys`].
    pub closed spec fn values(&self) -> Seq<V> {
        Seq::new(self.entries@.len(), |i: int| self.entries@[i].value)
    }

    /// The table as a map from name to value.
    pub closed spec fn view(&self) -> Map<Seq<char>, V> {
        Map::new(
            |k: Seq<char>| self.keys().contains(k),
            |k: Seq<char>| self.values()[self.keys().index_of(k)],
        )
    }

    /// How the ordered and the unordered view relate.
    pub proof fn lemma_keys(&self)
        requires
            self.wf(),
        ensures
            self.keys().len() == self.values().len(),
            self.keys().no_duplicates(),
            self@.dom() == self.keys().to_set(),
            forall|k: Seq<char>| #[trigger] self@.contains_key(k) <==> self.keys().contains(k),
            forall|i: int|
                0 <= i < self.keys().len() ==> self@.contains_key(#[trigger] self.keys()[i])
                    && self@[self.keys()[i]] == self.values()[i],
    {
        assert(self@.dom() =~= self.keys().to_set());
        assert forall|i: int| 0 <= i < self.keys().len() implies self@.contains_key(
            #[trigger] self.keys()[i],
        ) && self@[self.keys()[i]] == self.values()[i] by {
            let k = self.keys()[i];
            assert(self.keys().contains(k));
            let j = self.keys().index_of(k);
            assert(self.keys()[j] == k);
            if i != j {
                if i < j {
                    assert(self.entries@[i].key@ != self.entries@[j].key@);
                } else {
                    assert(self.entries@[j].key@ != self.entries@[i].key@);
                }
            }
        }
    }

    /// The empty table.
    pub fn new() -> (r: Self)
        ensures
            r@ == Map::<Seq<char>, V>::empty(),
            r.keys() == Seq::<Seq<char>>::empty(),
            r.wf(),
    {
        let r = NameMap { entries: Vec::new() };
        assert(r@ =~= Map::<Seq<char>, V>::empty());
        assert(r.keys() =~= Seq::<Seq<char>>::empty());
        r
    }

    /// Number of entries.
    pub fn len(&self) -> (n: usize)
        ensures
            n == self.keys().len(),
    {
        self.entries.len()
    }

    /// Position of `key` among the entries, if it is present.
    fn position(&self, key: &str) -> (r: Option<usize>)
        ensures
            match r {
                Some(i) => i < self.entries@.len() && self.entries@[i as int].key@ == key@,
                None => !self.keys().contains(key@),
            },
    {
        let mut i: usize = 0;
        while i < self.entries.len()
            invariant
                i <= self.entries@.len(),
                forall|j: int| 0 <= j < i ==> self.entries@[j].key@ != key@,
            decreases self.entries@.len() - i,
        {
            if str_eq(self.entries[i].key.as_str(), key) {
                return Some(i);
            }
            i += 1;
        }
        None
    }

    /// Whether `key` has an entry.
    pub fn contains_key(&self, key: &str) -> (r: bool)
        ensures
            r == self@.contains_key(key@),
    {
        let p = self.position(key);
        proof {
            if let Some(i) = p {
                assert(self.keys()[i as int] == key@);
            }
        }
        p.is_some()
    }

    /// The value stored under `key`.
    pub fn get(&self, key: &str) -> (r: Option<&V>)
        requires
            self.wf(),
        ensures
            match r {
                Some(v) => self@.contains_key(key@) && *v == self@[key@],
                None => !self@.contains_key(key@),
            },
    {
        let p = self.position(key);
        match p {
            Some(i) => {
                proof {
                    self.lemma_keys();
                    assert(self.keys()[i as int] == key@);
                }
                Some(&self.entries[i].value)
            },
            None => None,
        }
    }

    /// The key of the `i`-th entry.
    pub fn key_at(&self, i: usize) -> (r: &String)
        requires
            i < self.keys().len(),
        ensures
            r@ == self.keys()[i as int],
    {
        &self.entries[i].key
    }

    /// The value of the `i`-th entry.
    pub fn value_at(&self, i: usize) -> (r: &V)
        requires
            i < self.keys().len(),
        ensures
            *r == self.values()[i as int],
    {
        &self.entries[i].value
    }

    /// Stores `value` under `key`, replacing what was stored there before.
    /// A new key goes to the end of the order; a known key keeps its place.
    pub fn insert(&mut self, key: String, value: V)
        requires
            old(self).wf(),
        ensures
            final(self).wf(),
            final(self)@ == old(self)@.insert(key@, value),
            final(self).keys() == if old(self)@.contains_key(key@) {
                old(self).keys()
            } else {
                old(self).keys().push(key@)
            },
            final(self).values() == if old(self)@.contains_key(key@) {
                old(self).values().update(old(self).keys().index_of(key@), value)
            } else {
                old(self).values().push(value)
            },
    {
        proof {
            self.lemma_keys();
        }
        let p = self.position(key.as_str());
        let ghost before = *self;
        match p {
            Some(i) => {
                assert(before.keys()[i as int] == key@);
                self.entries.set(i, Entry { key, value });
                proof {
                    assert(self.keys() =~= before.keys());
                    assert(before.keys().index_of(key@) == i as int) by {
                        let j = before.keys().index_of(key@);
                        assert(before.keys()[j] == key@);
                    }
                    assert(self.values() =~= before.values().update(i as int, value));
                    assert(self.wf());
                    self.lemma_keys();
                    assert(self@ =~= before@.insert(key@, value)) by {
                        assert forall|k: Seq<char>| #[trigger]
                            self@.contains_key(k) implies self@[k] == before@.insert(
                            key@,
                            value,
                        )[k] by {
                            let j = self.keys().index_of(k);
                            assert(self.keys()[j] == k);
                            if j != i as int {
                                assert(self.values()[j] == before.values()[j]);
                            }
                        }
                    }
                }
            },
            None => {
                self.entries.push(Entry { key, value });
                proof {
                    assert(self.keys() =~= before.keys().push(key@));
                    assert(self.values() =~= before.values().push(value));
                    assert(self.wf()) by {
                        assert forall|i: int, j: int|
                            0 <= i < j < self.entries@.len() implies self.entries@[i].key@
                            != self.entries@[j].key@ by {
                            if j == self.entries@.len() - 1 {
                                assert(before.keys()[i] == self.entries@[i].key@);
                            }
                        }
                    }
                    self.lemma_keys();
                    assert(self@ =~= before@.insert(key@, value)) by {
                        assert forall|k: Seq<char>| self@.contains_key(k) <==> before@.insert(
                            key@,
                            value,
                        ).contains_key(k) by {
                            if before.keys().contains(k) {
                                let j = before.keys().index_of(k);
                                assert(self.keys()[j] == k);
                            }
                            if k == key@ {
                                assert(self.keys()[self.keys().len() - 1] == k);
                            }
                        }
                        assert forall|k: Seq<char>| #[trigger]
                            self@.contains_key(k) implies self@[k] == before@.insert(
                            key@,
                            value,
                        )[k] by {
                            let j = self.keys().index_of(k);
                            assert(self.keys()[j] == k);
                            if j < before.keys().len() {
                                assert(before.keys()[j] == k);
                                assert(self.values()[j] == before.values()[j]);
                            }
                        }
                    }
                }
            },
        }
    }

    /// The names of the table, ascending.
    pub fn sorted_names(&self) -> (r: Vec<String>)
        requires
            self.wf(),
        ensures
            spec_sorted(views(r@)),
            views(r@).to_set() == self@.dom(),
            views(r@) == spec_ascending(self@.dom()),
    {
        let mut out: Vec<String> = Vec::new();
        proof {
            self.lemma_keys();
            assert(views(out@).to_set() =~= self.keys().take(0).to_set());
        }
        let mut i: usize = 0;
        while i < self.len()
            invariant
                i <= self.keys().len(),
                self.wf(),
                spec_sorted(views(out@)),
                views(out@).to_set() == self.keys().take(i as int).to_set(),
            decreases self.keys().len() - i,
        {
            insert_sorted(&mut out, self.key_at(i).as_str());
            proof {
                let k = self.keys()[i as int];
                assert(self.keys().take(i + 1) == self.keys().take(i as int).push(k));
                self.keys().take(i as int).lemma_push_to_set_commute(k);
            }
            i += 1;
        }
        proof {
            assert(self.keys().take(self.keys().len() as int) == self.keys());
            self.lemma_keys();
            lemma_ascending(views(out@));
        }
        out
    }

    /// Replaces the value of the `i`-th entry; the key and the order stay.
    pub fn set_value_at(&mut self, i: usize, value: V)
        requires
            old(self).wf(),
            i < old(self).keys().len(),
        ensures
            final(self).wf(),
            final(self).keys() == old(self).keys(),
            final(self).values() == old(self).values().update(i as int, value),
            final(self)@ == old(self)@.insert(old(self).keys()[i as int], value),
    {
        let ghost before = *self;
        let key = self.entries[i].key.clone();
        self.entries.set(i, Entry { key, value });
        proof {
            before.lemma_keys();
            assert(self.keys() =~= before.keys());
            assert(self.values() =~= before.values().update(i as int, value));
            assert(self.wf()) by {
                assert forall|a: int, b: int| 0 <= a < b < self.entries@.len() implies self.entries@[a].key@
                    != self.entries@[b].key@ by {
                    assert(self.keys()[a] == before.keys()[a]);
                    assert(self.keys()[b] == before.keys()[b]);
                    assert(before.entries@[a].key@ != before.entries@[b].key@);
                }
            }
            self.lemma_keys();
            let k0 = before.keys()[i as int];
            assert(self@ =~= before@.insert(k0, value)) by {
                assert forall|k: Seq<char>| #[trigger]
                    self@.contains_key(k) implies self@[k] == before@.insert(k0, value)[k] by {
                    let j = self.keys().index_of(k);
                    assert(self.keys()[j] == k);
                    if j != i as int {
                        assert(self.values()[j] == before.values()[j]);
                    }
                }
            }
        }
    }
}

impl<V: Copy> NameMap<V> {
    /// Copies every entry of `other` into the table; where both hold a key,
    /// the value of `other` wins.
    pub fn extend_from(&mut self, other: &NameMap<V>)
        requires
            old(self).wf(),
            other.wf(),
        ensures
            final(self).wf(),
            final(self)@ == old(self)@.union_prefer_right(other@),
    {
        let ghost before = *self;
        proof {
            other.lemma_keys();
        }
        let mut i: usize = 0;
        while i < other.len()
            invariant
                i <= other.keys().len(),
                other.wf(),
                self.wf(),
                forall|k: Seq<char>| #[trigger]
                    self@.contains_key(k) <==> before@.contains_key(k) || other.keys().take(
                        i as int,
                    ).contains(k),
                forall|k: Seq<char>| #[trigger]
                    self@.contains_key(k) ==> self@[k] == if other.keys().take(i as int).contains(
                        k,
                    ) {
                        other@[k]
                    } else {
                        before@[k]
                    },
            decreases other.keys().len() - i,
        {
            let ghost prev = *self;
            let ghost ki = other.keys()[i as int];
            proof {
                other.lemma_keys();
            }
            let key = other.key_at(i).clone();
            let value = *other.value_at(i);
            self.insert(key, value);
            proof {
                assert(other.keys().take(i + 1) == other.keys().take(i as int).push(ki));
                assert forall|k: Seq<char>| other.keys().take(i + 1).contains(k) <==> other.keys().take(
                    i as int,
                ).contains(k) || k == ki by {
                    if other.keys().take(i as int).contains(k) {
                        let j = other.keys().take(i as int).index_of(k);
                        assert(other.keys().take(i + 1)[j] == k);
                    }
                    if k == ki {
                        assert(other.keys().take(i + 1)[i as int] == k);
                    }
                    if other.keys().take(i + 1).contains(k) {
                        let j = other.keys().take(i + 1).index_of(k);
                        if j < i {
                            assert(other.keys().take(i as int)[j] == k);
                        }
                    }
                }
            }
            i += 1;
        }
        proof {
            assert(other.keys().take(other.keys().len() as int) == other.keys());
            assert(self@ =~= before@.union_prefer_right(other@));
        }
    }
}

} // verus!
