//! A table of values under names, in the order in which the names came.

use vstd::prelude::*;
use crate::text::same_text;

verus! {

/// One line of a [`Table`].
struct Entry<V> {
    key: String,
    value: V,
}

/// Values under names. Each name is there at most once.
pub struct Table<V> {
    entries: Vec<Entry<V>>,
}

impl<V> Table<V> {
    /// The names, oldest first.
    pub closed spec fn keys(&self) -> Seq<Seq<char>> {
        self.entries@.map_values(|entry: Entry<V>| entry.key@)
    }

    /// Whether each name is there only once.
    pub closed spec fn wf(&self) -> bool {
        self.keys().no_duplicates()
    }
}

impl<V> View for Table<V> {
    type V = Map<Seq<char>, V>;

    closed spec fn view(&self) -> Map<Seq<char>, V> {
        Map::new(
            |key: Seq<char>| self.keys().contains(key),
            |key: Seq<char>| self.entries@[self.keys().index_of(key)].value,
        )
    }
}

impl<V> Table<V> {
    /// The names are those of the map that the table stands for.
    pub proof fn keys_are_the_domain(&self)
        ensures
            forall|key: Seq<char>| #[trigger] self@.contains_key(key) <==> self.keys().contains(key),
            self.wf() ==> self.keys().no_duplicates(),
    {
    }

    proof fn entry_at(&self, i: int)
        requires
            self.wf(),
            0 <= i < self.entries@.len(),
        ensures
            self@.contains_key(self.entries@[i].key@),
            self@[self.entries@[i].key@] == self.entries@[i].value,
            self.keys()[i] == self.entries@[i].key@,
            self.keys().index_of(self.entries@[i].key@) == i,
    {
        assert(self.keys()[i] == self.entries@[i].key@);
        let k = self.keys().index_of(self.entries@[i].key@);
        assert(self.keys().contains(self.entries@[i].key@));
        assert(self.keys()[k] == self.keys()[i]);
    }

    /// A table without entries.
    pub fn new() -> (table: Self)
        ensures
            table.wf(),
            table@ == Map::<Seq<char>, V>::empty(),
            table.keys() == Seq::<Seq<char>>::empty(),
    {
        let table = Table { entries: Vec::new() };
        assert(table.keys() == Seq::<Seq<char>>::empty());
        assert(table@ == Map::<Seq<char>, V>::empty());
        table
    }

    /// The number of entries.
    pub fn len(&self) -> (n: usize)
        ensures
            n == self.keys().len(),
    {
        self.entries.len()
    }

    /// The name at position `i`.
    pub fn key_at(&self, i: usize) -> (key: &str)
        requires
            i < self.keys().len(),
        ensures
            key@ == self.keys()[i as int],
    {
        self.entries[i].key.as_str()
    }

    /// Where `key` stands.
    fn position(&self, key: &str) -> (position: Option<usize>)
        requires
            self.wf(),
        ensures
            match position {
                Some(i) => i < self.entries@.len() && self.entries@[i as int].key@ == key@
                    && self@.contains_key(key@) && self@[key@] == self.entries@[i as int].value
                    && self.keys().index_of(key@) == i,
                None => !self@.contains_key(key@) && !self.keys().contains(key@),
            },
    {
        let mut i: usize = 0;
        while i < self.entries.len()
            invariant
                self.wf(),
                i <= self.entries@.len(),
                forall|j: int| 0 <= j < i ==> (#[trigger] self.entries@[j]).key@ != key@,
            decreases self.entries@.len() - i,
        {
            if same_text(self.entries[i].key.as_str(), key) {
                proof {
                    self.entry_at(i as int);
                }
                return Some(i);
            }
            i += 1;
        }
        assert forall|j: int| 0 <= j < self.keys().len() implies self.keys()[j] != key@ by {
            assert(self.entries@[j].key@ != key@);
        }
        None
    }

    /// Whether there is a value under `key`.
    pub fn contains_key(&self, key: &str) -> (yes: bool)
        requires
            self.wf(),
        ensures
            yes == self@.contains_key(key@),
    {
        self.position(key).is_some()
    }

    /// The value under `key`.
    pub fn get(&self, key: &str) -> (value: Option<&V>)
        requires
            self.wf(),
        ensures
            match value {
                Some(v) => self@.contains_key(key@) && *v == self@[key@],
                None => !self@.contains_key(key@),
            },
    {
        match self.position(key) {
            Some(i) => Some(&self.entries[i].value),
            None => None,
        }
    }

    /// Puts `value` under `key`, in place of what was there.
    pub fn insert(&mut self, key: String, value: V)
        requires
            old(self).wf(),
        ensures
            final(self).wf(),
            final(self)@ == old(self)@.insert(key@, value),
            final(self).keys() == if old(self)@.contains_key(key@) {
                old(self).keys()
            } else {
                old(self).keys().push(key@)
            },
    {
        let ghost before = *self;
        match self.position(key.as_str()) {
            Some(i) => {
                let entry = Entry { key, value };
                self.entries[i] = entry;
                assert(self.keys() == before.keys());
                assert(self@ == before@.insert(key@, value)) by {
                    assert forall|k: Seq<char>| self.keys().contains(k) implies #[trigger] self@[k]
                        == before@.insert(key@, value)[k] by {
                        let j = self.keys().index_of(k);
                        assert(self.keys()[j] == k);
                        before.entry_at(j);
                    }
                }
            },
            None => {
                let entry = Entry { key, value };
                self.entries.push(entry);
                assert(self.keys() == before.keys().push(key@));
                assert(self.wf()) by {
                    assert forall|i: int, j: int|
                        0 <= i < self.keys().len() && 0 <= j < self.keys().len() && i
                            != j implies self.keys()[i] != self.keys()[j] by {
                        if i < before.keys().len() {
                            assert(before.keys().contains(before.keys()[i]));
                        }
                        if j < before.keys().len() {
                            assert(before.keys().contains(before.keys()[j]));
                        }
                    }
                }
                assert(self@ == before@.insert(key@, value)) by {
                    assert forall|k: Seq<char>|
                        #![auto]
                        self@.contains_key(k) <==> before@.insert(key@, value).contains_key(k) by {
                        if before.keys().contains(k) {
                            let j = before.keys().index_of(k);
                            assert(self.keys()[j] == k);
                        }
                        if k == key@ {
                            assert(self.keys()[before.keys().len() as int] == k);
                        }
                        if self.keys().contains(k) && k != key@ {
                            let j = self.keys().index_of(k);
                            assert(self.keys()[j] == k);
                            assert(before.keys()[j] == k);
                        }
                    }
                    assert forall|k: Seq<char>| self.keys().contains(k) implies #[trigger] self@[k]
                        == before@.insert(key@, value)[k] by {
                        let j = self.keys().index_of(k);
                        assert(self.keys()[j] == k);
                        if j < before.keys().len() {
                            before.entry_at(j);
                        }
                    }
                }
            },
        }
    }

    /// Takes away what is under `key`.
    pub fn remove(&mut self, key: &str) -> (value: Option<V>)
        requires
            old(self).wf(),
        ensures
            final(self).wf(),
            match value {
                Some(v) => old(self)@.contains_key(key@) && v == old(self)@[key@],
                None => !old(self)@.contains_key(key@),
            },
            final(self)@ == old(self)@.remove(key@),
            final(self).keys() == if old(self)@.contains_key(key@) {
                old(self).keys().remove(old(self).keys().index_of(key@))
            } else {
                old(self).keys()
            },
    {
        let ghost before = *self;
        match self.position(key) {
            Some(i) => {
                let entry = self.entries.remove(i);
                assert(self.keys() == before.keys().remove(i as int));
                proof {
                    before.entry_at(i as int);
                }
                assert(self.wf()) by {
                    assert forall|a: int, b: int|
                        0 <= a < self.keys().len() && 0 <= b < self.keys().len() && a
                            != b implies self.keys()[a] != self.keys()[b] by {
                        let x = if a < i { a } else { a + 1 };
                        let y = if b < i { b } else { b + 1 };
                        assert(self.keys()[a] == before.keys()[x]);
                        assert(self.keys()[b] == before.keys()[y]);
                    }
                }
                assert(self@ == before@.remove(key@)) by {
                    assert forall|k: Seq<char>|
                        #![auto]
                        self@.contains_key(k) <==> before@.remove(key@).contains_key(k) by {
                        if self.keys().contains(k) {
                            let a = self.keys().index_of(k);
                            let x = if a < i { a } else { a + 1 };
                            assert(self.keys()[a] == k);
                            assert(before.keys()[x] == k);
                            assert(before.keys()[i as int] == key@);
                        }
                        if before.keys().contains(k) && k != key@ {
                            let x = before.keys().index_of(k);
                            assert(before.keys()[x] == k);
                            let a = if x < i { x } else { x - 1 };
                            assert(self.keys()[a] == k);
                        }
                    }
                    assert forall|k: Seq<char>| self.keys().contains(k) implies #[trigger] self@[k]
                        == before@.remove(key@)[k] by {
                        let a = self.keys().index_of(k);
                        let x = if a < i { a } else { a + 1 };
                        assert(self.keys()[a] == k);
                        before.entry_at(x);
                    }
                }
                Some(entry.value)
            },
            None => {
                assert(before@ == before@.remove(key@));
                None
            },
        }
    }

    /// The value under `key`, to be changed in place.
    pub fn get_mut(&mut self, key: &str) -> (value: Option<&mut V>)
        requires
            old(self).wf(),
        ensures
            final(self).wf(),
            final(self).keys() == old(self).keys(),
            match value {
                Some(v) => old(self)@.contains_key(key@) && *v == old(self)@[key@] && final(self)@
                    == old(self)@.insert(key@, *final(v)),
                None => !old(self)@.contains_key(key@) && final(self)@ == old(self)@,
            },
    {
        let ghost before = *self;
        match self.position(key) {
            Some(i) => {
                let value = &mut self.entries[i].value;
                proof {
                    before.one_value_changed(*after_borrow(self), i as int);
                }
                Some(value)
            },
            None => None,
        }
    }

    proof fn one_value_changed(&self, after: Self, i: int)
        requires
            self.wf(),
            0 <= i < self.entries@.len(),
            after.entries@ == self.entries@.update(i, after.entries@[i]),
            after.entries@[i].key == self.entries@[i].key,
        ensures
            after.wf(),
            after.keys() == self.keys(),
            after@ == self@.insert(self.entries@[i].key@, after.entries@[i].value),
    {
        self.entry_at(i);
        assert(after.keys() == self.keys());
        assert forall|k: Seq<char>| self.keys().contains(k) implies #[trigger] after@[k]
            == self@.insert(self.entries@[i].key@, after.entries@[i].value)[k] by {
            let j = self.keys().index_of(k);
            assert(self.keys()[j] == k);
            self.entry_at(j);
        }
        assert(after@ == self@.insert(self.entries@[i].key@, after.entries@[i].value));
    }
}

} // verus!
