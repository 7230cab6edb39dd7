//! A small map keyed by strings that remembers the order in which keys
//! were first inserted.

use vstd::prelude::*;

verus! {

/// Entries in first-insertion order, each key once.
#[derive(Debug, Clone)]
pub struct StringMap<V> {
    entries: Vec<(String, V)>,
}

pub open spec fn entry_keys<V>(entries: Seq<(Seq<char>, V)>) -> Seq<Seq<char>> {
    entries.map_values(|e: (Seq<char>, V)| e.0)
}

pub open spec fn keys_unique<V>(entries: Seq<(Seq<char>, V)>) -> bool {
    forall|i: int, j: int| 0 <= i < j < entries.len() ==> entries[i].0 != entries[j].0
}

/// Position of a key among unique keys.
pub open spec fn key_index(keys: Seq<Seq<char>>, key: Seq<char>) -> Option<int> {
    if keys.contains(key) {
        Some(choose|i: int| 0 <= i < keys.len() && keys[i] == key)
    } else {
        None
    }
}

/// The map the entries stand for.
pub open spec fn entries_map<V>(entries: Seq<(Seq<char>, V)>) -> Map<Seq<char>, V>
    decreases entries.len(),
{
    if entries.len() == 0 {
        Map::empty()
    } else {
        entries_map(entries.drop_last()).insert(entries.last().0, entries.last().1)
    }
}

/// With unique keys, the map holds exactly the entries.
pub proof fn lemma_entries_map<V>(entries: Seq<(Seq<char>, V)>)
    requires
        keys_unique(entries),
    ensures
        forall|k: Seq<char>|
            #![trigger entries_map(entries).contains_key(k)]
            #![trigger entry_keys(entries).contains(k)]
            entries_map(entries).contains_key(k) <==> entry_keys(entries).contains(k),
        forall|i: int|
            0 <= i < entries.len() ==> entries_map(entries)[#[trigger] entries[i].0] == entries[i].1,
        entries_map(entries).dom().finite(),
        entries_map(entries).dom().len() == entries.len(),
    decreases entries.len(),
{
    if entries.len() > 0 {
        let init = entries.drop_last();
        assert(keys_unique(init));
        lemma_entries_map(init);
        let ks = entry_keys(entries);
        let ki = entry_keys(init);
        assert(ks.len() == entries.len());
        assert(ki.len() == init.len());
        assert forall|i: int| 0 <= i < init.len() implies ki[i] == #[trigger] ks[i] by {
            assert(ki[i] == init[i].0);
            assert(ks[i] == entries[i].0);
        }
        assert(ks[entries.len() - 1] == entries.last().0);
        assert forall|k: Seq<char>|
            entries_map(entries).contains_key(k) <==> ks.contains(k) by {
            if entries_map(entries).contains_key(k) {
                if k == entries.last().0 {
                    assert(ks[entries.len() - 1] == k);
                } else {
                    assert(ki.contains(k));
                    let i = choose|i: int| 0 <= i < ki.len() && ki[i] == k;
                    assert(ks[i] == k);
                }
            }
            if ks.contains(k) {
                let i = choose|i: int| 0 <= i < ks.len() && ks[i] == k;
                if i < entries.len() - 1 {
                    assert(ki[i] == k);
                    assert(ki.contains(k));
                }
            }
        }
        assert forall|i: int| 0 <= i < entries.len() implies entries_map(
            entries,
        )[#[trigger] entries[i].0] == entries[i].1 by {
            if i < entries.len() - 1 {
                assert(init[i] == entries[i]);
            }
        }
        assert(!entries_map(init).contains_key(entries.last().0)) by {
            if entry_keys(init).contains(entries.last().0) {
                let i = choose|i: int| 0 <= i < entry_keys(init).len() && entry_keys(init)[i]
                    == entries.last().0;
                assert(entries[i].0 == entries[entries.len() - 1].0);
            }
        }
    }
}

impl<V> StringMap<V> {
    /// The entries, keys by their characters, in first-insertion order.
    pub closed spec fn entries(&self) -> Seq<(Seq<char>, V)> {
        self.entries@.map_values(|e: (String, V)| (e.0@, e.1))
    }

    pub closed spec fn wf(&self) -> bool {
        keys_unique(self.entries())
    }

    pub open spec fn map(&self) -> Map<Seq<char>, V> {
        entries_map(self.entries())
    }

    pub open spec fn keys(&self) -> Seq<Seq<char>> {
        entry_keys(self.entries())
    }

    pub fn new() -> (m: StringMap<V>)
        ensures
            m.wf(),
            m.entries() == Seq::<(Seq<char>, V)>::empty(),
    {
        let m = StringMap { entries: Vec::new() };
        assert(m.entries() =~= Seq::<(Seq<char>, V)>::empty());
        m
    }

    /// Number of keys.
    pub fn len(&self) -> (n: usize)
        requires
            self.wf(),
        ensures
            n == self.entries().len(),
            n == self.map().dom().len(),
    {
        proof {
            lemma_entries_map(self.entries());
        }
        self.entries.len()
    }

    /// Position of a key.
    pub fn index_of(&self, key: &str) -> (r: Option<usize>)
        requires
            self.wf(),
        ensures
            match r {
                Some(i) => i < self.entries().len() && self.entries()[i as int].0 == key@
                    && self.map().contains_key(key@),
                None => !self.keys().contains(key@) && !self.map().contains_key(key@),
            },
            self.map().contains_key(key@) <==> self.keys().contains(key@),
            r matches Some(i) ==> self.map()[key@] == self.entries()[i as int].1,
    {
        proof {
            lemma_entries_map(self.entries());
        }
        let mut i: usize = 0;
        while i < self.entries.len()
            invariant
                i <= self.entries.len(),
                self.wf(),
                forall|k: int| 0 <= k < i ==> self.entries()[k].0 != key@,
            decreases self.entries.len() - i,
        {
            if crate::text::str_eq(self.entries[i].0.as_str(), key) {
                proof {
                    lemma_entries_map(self.entries());
                    assert(self.entries()[i as int].0 == key@);
                    assert(self.keys()[i as int] == key@);
                }
                return Some(i);
            }
            i = i + 1;
        }
        proof {
            lemma_entries_map(self.entries());
            if self.keys().contains(key@) {
                let k = choose|k: int| 0 <= k < self.keys().len() && self.keys()[k] == key@;
                assert(self.entries()[k].0 == key@);
            }
        }
        None
    }

    pub fn contains_key(&self, key: &str) -> (b: bool)
        requires
            self.wf(),
        ensures
            b == self.map().contains_key(key@),
    {
        self.index_of(key).is_some()
    }

    pub fn get(&self, key: &str) -> (r: Option<&V>)
        requires
            self.wf(),
        ensures
            match r {
                Some(v) => self.map().contains_key(key@) && *v == self.map()[key@],
                None => !self.map().contains_key(key@),
            },
    {
        match self.index_of(key) {
            Some(i) => {
                assert(self.entries()[i as int] == (self.entries@[i as int].0@, self.entries@[i as int].1));
                Some(&self.entries[i].1)
            },
            None => None,
        }
    }

    /// Sets a key's value: in place when the key is there, at the end when
    /// it is new.
    pub fn insert(&mut self, key: &str, value: V)
        requires
            old(self).wf(),
        ensures
            final(self).wf(),
            final(self).entries() == match old(self).index_of_spec(key@) {
                Some(i) => old(self).entries().update(i, (key@, value)),
                None => old(self).entries().push((key@, value)),
            },
            final(self).map() == old(self).map().insert(key@, value),
    {
        let ghost before = self.entries();
        proof {
            lemma_entries_map(before);
        }
        match self.index_of(key) {
            Some(i) => {
                proof {
                    self.lemma_index_of_spec(key@, i as int);
                }
                let mut owned = String::new();
                owned.append(key);
                self.entries.set(i, (owned, value));
                proof {
                    let after = self.entries();
                    assert(after =~= before.update(i as int, (key@, value)));
                    assert(keys_unique(after)) by {
                        assert forall|a: int, b: int| 0 <= a < b < after.len() implies after[a].0
                            != after[b].0 by {
                            if a != i && b != i {
                                assert(after[a] == before[a] && after[b] == before[b]);
                            } else if a == i {
                                assert(after[b] == before[b]);
                            } else {
                                assert(after[a] == before[a]);
                            }
                        }
                    }
                    lemma_entries_map(after);
                    assert forall|k: Seq<char>| #[trigger]
                        entries_map(after).contains_key(k) <==> entries_map(before).insert(
                            key@,
                            value,
                        ).contains_key(k) by {
                        if entry_keys(before).contains(k) {
                            let j = choose|j: int| 0 <= j < entry_keys(before).len()
                                && entry_keys(before)[j] == k;
                            assert(entry_keys(after)[j] == k);
                        }
                        if entry_keys(after).contains(k) {
                            let j = choose|j: int| 0 <= j < entry_keys(after).len()
                                && entry_keys(after)[j] == k;
                            if j != i {
                                assert(entry_keys(before)[j] == k);
                            }
                        }
                    }
                    assert forall|k: Seq<char>| #[trigger]
                        entries_map(after).contains_key(k) implies entries_map(after)[k]
                        == entries_map(before).insert(key@, value)[k] by {
                        let j = choose|j: int| 0 <= j < entry_keys(after).len()
                            && entry_keys(after)[j] == k;
                        assert(entries_map(after)[after[j].0] == after[j].1);
                        if j != i {
                            assert(after[j] == before[j]);
                            assert(entries_map(before)[before[j].0] == before[j].1);
                        }
                    }
                    assert(entries_map(after) =~= entries_map(before).insert(key@, value));
                }
            },
            None => {
                proof {
                    self.lemma_index_of_spec_none(key@);
                }
                let mut owned = String::new();
                owned.append(key);
                self.entries.push((owned, value));
                proof {
                    let after = self.entries();
                    assert(after =~= before.push((key@, value)));
                    assert(after.drop_last() =~= before);
                    assert(keys_unique(after)) by {
                        assert forall|a: int, b: int| 0 <= a < b < after.len() implies after[a].0
                            != after[b].0 by {
                            if b == after.len() - 1 {
                                assert(entry_keys(before)[a] == before[a].0);
                            } else {
                                assert(after[a] == before[a] && after[b] == before[b]);
                            }
                        }
                    }
                }
            },
        }
    }

    /// Position of a key, in spec form.
    pub open spec fn index_of_spec(&self, key: Seq<char>) -> Option<int> {
        key_index(self.keys(), key)
    }

    proof fn lemma_index_of_spec(&self, key: Seq<char>, i: int)
        requires
            self.wf(),
            0 <= i < self.entries().len(),
            self.entries()[i].0 == key,
        ensures
            self.index_of_spec(key) == Some(i),
    {
        assert(self.keys()[i] == key);
        let j = choose|j: int| 0 <= j < self.keys().len() && self.keys()[j] == key;
        assert(self.entries()[j].0 == key);
    }

    proof fn lemma_index_of_spec_none(&self, key: Seq<char>)
        requires
            !self.keys().contains(key),
        ensures
            self.index_of_spec(key) is None,
    {
    }

    /// Drops a key, keeping the order of the others.
    pub fn remove(&mut self, key: &str) -> (r: Option<V>)
        requires
            old(self).wf(),
        ensures
            final(self).wf(),
            final(self).map() == old(self).map().remove(key@),
            final(self).entries() == match old(self).index_of_spec(key@) {
                Some(i) => old(self).entries().remove(i),
                None => old(self).entries(),
            },
            match r {
                Some(v) => old(self).map().contains_key(key@) && v == old(self).map()[key@],
                None => !old(self).map().contains_key(key@),
            },
    {
        let ghost before = self.entries();
        proof {
            lemma_entries_map(before);
        }
        match self.index_of(key) {
            Some(i) => {
                proof {
                    self.lemma_index_of_spec(key@, i as int);
                }
                let (_, value) = self.entries.remove(i);
                proof {
                    let after = self.entries();
                    assert(after =~= before.remove(i as int));
                    assert(keys_unique(after)) by {
                        assert forall|a: int, b: int| 0 <= a < b < after.len() implies after[a].0
                            != after[b].0 by {
                            let a0 = if a < i { a } else { a + 1 };
                            let b0 = if b < i { b } else { b + 1 };
                            assert(after[a] == before[a0] && after[b] == before[b0]);
                        }
                    }
                    lemma_entries_map(after);
                    assert forall|k: Seq<char>| #[trigger]
                        entries_map(after).contains_key(k) <==> entries_map(before).remove(
                            key@,
                        ).contains_key(k) by {
                        if entry_keys(before).contains(k) && k != key@ {
                            let j = choose|j: int| 0 <= j < entry_keys(before).len()
                                && entry_keys(before)[j] == k;
                            let j1 = if j < i { j } else { j - 1 };
                            assert(j != i);
                            assert(entry_keys(after)[j1] == k);
                        }
                        if entry_keys(after).contains(k) {
                            let j = choose|j: int| 0 <= j < entry_keys(after).len()
                                && entry_keys(after)[j] == k;
                            let j0 = if j < i { j } else { j + 1 };
                            assert(entry_keys(before)[j0] == k);
                            assert(before[j0].0 != before[i as int].0);
                        }
                    }
                    assert forall|k: Seq<char>| #[trigger]
                        entries_map(after).contains_key(k) implies entries_map(after)[k]
                        == entries_map(before)[k] by {
                        let j = choose|j: int| 0 <= j < entry_keys(after).len()
                            && entry_keys(after)[j] == k;
                        let j0 = if j < i { j } else { j + 1 };
                        assert(after[j] == before[j0]);
                        assert(entries_map(after)[after[j].0] == after[j].1);
                        assert(entries_map(before)[before[j0].0] == before[j0].1);
                    }
                    assert(entries_map(after) =~= entries_map(before).remove(key@));
                }
                Some(value)
            },
            None => {
                proof {
                    assert(entries_map(before).remove(key@) =~= entries_map(before));
                }
                None
            },
        }
    }

    /// Drops every key.
    pub fn clear(&mut self)
        ensures
            final(self).wf(),
            final(self).entries() == Seq::<(Seq<char>, V)>::empty(),
    {
        self.entries = Vec::new();
        assert(self.entries() =~= Seq::<(Seq<char>, V)>::empty());
    }

    /// The entry at a position.
    pub fn entry(&self, i: usize) -> (r: (&str, &V))
        requires
            i < self.entries().len(),
        ensures
            r.0@ == self.entries()[i as int].0,
            *r.1 == self.entries()[i as int].1,
    {
        assert(self.entries()[i as int] == (self.entries@[i as int].0@, self.entries@[i as int].1));
        (self.entries[i].0.as_str(), &self.entries[i].1)
    }
}

impl<V: View> StringMap<V> {
    /// The entries with each value by its view.
    pub open spec fn view_entries(&self) -> Seq<(Seq<char>, V::V)> {
        self.entries().map_values(|e: (Seq<char>, V)| (e.0, e.1@))
    }

    /// The viewed entries have the same keys, and their map holds the
    /// views of the values.
    pub proof fn lemma_view_entries(&self)
        requires
            self.wf(),
        ensures
            entry_keys(self.view_entries()) == self.keys(),
            keys_unique(self.view_entries()),
            forall|k: Seq<char>|
                #![trigger entries_map(self.view_entries()).contains_key(k)]
                entries_map(self.view_entries()).contains_key(k) == self.map().contains_key(k),
            forall|k: Seq<char>|
                #![trigger entries_map(self.view_entries())[k]]
                self.map().contains_key(k) ==> entries_map(self.view_entries())[k] == self.map()[k]@,
    {
        let v = self.view_entries();
        let e = self.entries();
        assert(entry_keys(v) =~= entry_keys(e));
        lemma_entries_map(e);
        lemma_entries_map(v);
        assert forall|k: Seq<char>| self.map().contains_key(k) implies entries_map(v)[k] == self.map()[k]@ by {
            let i = choose|i: int| 0 <= i < entry_keys(e).len() && entry_keys(e)[i] == k;
            assert(e[i].0 == k);
            assert(v[i].0 == k);
            assert(entries_map(v)[v[i].0] == v[i].1);
            assert(entries_map(e)[e[i].0] == e[i].1);
        }
    }
}

} // verus!
