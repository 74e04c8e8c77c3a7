//! A small table keyed by name, kept in insertion order.

use vstd::prelude::*;

verus! {

/// One key of a table with what is stored under it.
pub struct Slot<V> {
    pub key: String,
    pub value: V,
}

/// A table from names to values in which no name occurs twice.
pub struct NameTable<V> {
    pub slots: Vec<Slot<V>>,
}

impl<V> NameTable<V> {
    /// No two slots carry the same key.
    pub open spec fn wf(&self) -> bool {
        forall|i: int, j: int|
            0 <= i < j < self.slots@.len() ==> #[trigger] self.slots@[i].key@
                != #[trigger] self.slots@[j].key@
    }

    /// Slot `i` exists and carries `key`.
    pub open spec fn holds_at(&self, key: Seq<char>, i: int) -> bool {
        0 <= i < self.slots@.len() && self.slots@[i].key@ == key
    }

    pub open spec fn has(&self, key: Seq<char>) -> bool {
        exists|i: int| self.holds_at(key, i)
    }

    /// The value stored under `key`; meaningful where `has(key)`.
    pub open spec fn value_of(&self, key: Seq<char>) -> V {
        self.slots@[choose|i: int| self.holds_at(key, i)].value
    }

    /// The table as a map from names to values.
    pub open spec fn view(&self) -> Map<Seq<char>, V> {
        Map::new(|k: Seq<char>| self.has(k), |k: Seq<char>| self.value_of(k))
    }

    /// In a well-formed table the slot that carries a key is the one `value_of` reads.
    pub proof fn slot_is_value(&self, key: Seq<char>, i: int)
        requires
            self.wf(),
            self.holds_at(key, i),
        ensures
            self.has(key),
            self.value_of(key) == self.slots@[i].value,
    {
        let j = choose|j: int| self.holds_at(key, j);
        assert(self.holds_at(key, j));
        if i < j {
            assert(self.slots@[i].key@ != self.slots@[j].key@);
        } else if j < i {
            assert(self.slots@[j].key@ != self.slots@[i].key@);
        }
    }

    /// Where two tables differ only in the slot of `key`, every other name is in both
    /// or in neither, with the same value.
    pub proof fn others_keep_their_values(&self, after: &Self, key: Seq<char>)
        requires
            self.wf(),
            after.wf(),
            forall|j: int|
                0 <= j < self.slots@.len() && (#[trigger] self.slots@[j]).key@ != key ==> j
                    < after.slots@.len() && after.slots@[j] == self.slots@[j],
            forall|j: int|
                0 <= j < after.slots@.len() && (#[trigger] after.slots@[j]).key@ != key ==> j
                    < self.slots@.len() && after.slots@[j] == self.slots@[j],
        ensures
            forall|n: Seq<char>| n != key ==> #[trigger] after.has(n) == self.has(n),
            forall|n: Seq<char>|
                n != key && self.has(n) ==> #[trigger] after.value_of(n) == self.value_of(n),
    {
        assert forall|n: Seq<char>| n != key implies after.has(n) == self.has(n) && (self.has(n)
            ==> after.value_of(n) == self.value_of(n)) by {
            if self.has(n) {
                let j = choose|j: int| self.holds_at(n, j);
                assert(after.holds_at(n, j));
                after.slot_is_value(n, j);
                self.slot_is_value(n, j);
            }
            if after.has(n) {
                let j = choose|j: int| after.holds_at(n, j);
                assert(self.holds_at(n, j));
            }
        }
    }

    pub fn new() -> (t: Self)
        ensures
            t.wf(),
            t@ == Map::<Seq<char>, V>::empty(),
            t.slots@.len() == 0,
    {
        let t = NameTable { slots: Vec::new() };
        assert(t@ =~= Map::<Seq<char>, V>::empty());
        t
    }

    /// Index of the slot that carries `key`, if there is one.
    pub fn position(&self, key: &String) -> (at: Option<usize>)
        ensures
            match at {
                Some(i) => self.holds_at(key@, i as int),
                None => !self.has(key@),
            },
    {
        let mut i: usize = 0;
        while i < self.slots.len()
            invariant
                i <= self.slots@.len(),
                forall|j: int| 0 <= j < i ==> !self.holds_at(key@, j),
            decreases self.slots@.len() - i,
        {
            if self.slots[i].key == *key {
                return Some(i);
            }
            i += 1;
        }
        None
    }

    pub fn contains(&self, key: &String) -> (found: bool)
        ensures
            found == self@.contains_key(key@),
    {
        self.position(key).is_some()
    }

    pub fn get(&self, key: &String) -> (found: Option<&V>)
        requires
            self.wf(),
        ensures
            match found {
                Some(v) => self@.contains_key(key@) && *v == self@[key@],
                None => !self@.contains_key(key@),
            },
    {
        match self.position(key) {
            Some(i) => {
                proof {
                    self.slot_is_value(key@, i as int);
                }
                Some(&self.slots[i].value)
            },
            None => None,
        }
    }

    /// Stores `value` under `key`, replacing what was stored there before.
    pub fn insert(&mut self, key: String, value: V)
        requires
            old(self).wf(),
        ensures
            final(self).wf(),
            final(self)@ == old(self)@.insert(key@, value),
    {
        let ghost before = *self;
        let ghost k = key@;
        match self.position(&key) {
            Some(i) => {
                self.slots.set(i, Slot { key, value });
                assert(forall|j: int|
                    0 <= j < self.slots@.len() ==> self.slots@[j].key@
                        == #[trigger] before.slots@[j].key@);
                assert(forall|j: int|
                    0 <= j < self.slots@.len() && j != i ==> self.slots@[j]
                        == #[trigger] before.slots@[j]);
                proof {
                    self.slot_is_value(k, i as int);
                    before.others_keep_their_values(self, k);
                    assert(self@ =~= before@.insert(k, value));
                }
            },
            None => {
                self.slots.push(Slot { key, value });
                proof {
                    let last = before.slots@.len() as int;
                    assert(forall|j: int|
                        0 <= j < last ==> self.slots@[j] == #[trigger] before.slots@[j]);
                    assert forall|j: int| 0 <= j < last implies #[trigger] self.slots@[j].key@
                        != k by {
                        assert(!before.holds_at(k, j));
                    }
                    assert(self.holds_at(k, last));
                    assert(self.wf());
                    self.slot_is_value(k, last);
                    before.others_keep_their_values(self, k);
                    assert(self@ =~= before@.insert(k, value));
                }
            },
        }
    }

    /// The names in the table, in the order in which they were first stored.
    pub fn names(&self) -> (names: Vec<String>)
        ensures
            names@.len() == self.slots@.len(),
            forall|i: int| 0 <= i < names@.len() ==> names@[i]@ == self.slots@[i].key@,
    {
        let mut names: Vec<String> = Vec::new();
        let mut i: usize = 0;
        while i < self.slots.len()
            invariant
                i <= self.slots@.len(),
                names@.len() == i,
                forall|j: int| 0 <= j < i ==> names@[j]@ == self.slots@[j].key@,
            decreases self.slots@.len() - i,
        {
            names.push(self.slots[i].key.clone());
            i += 1;
        }
        names
    }
}

impl<T> NameTable<Vec<T>> {
    /// The list stored under `key`, empty where there is none.
    pub open spec fn list_of(&self, key: Seq<char>) -> Seq<T> {
        if self.has(key) {
            self.value_of(key)@
        } else {
            Seq::empty()
        }
    }

    /// Appends `item` to the list stored under `key`, starting a new list where there is none.
    pub fn append(&mut self, key: String, item: T)
        requires
            old(self).wf(),
        ensures
            final(self).wf(),
            final(self).has(key@),
            final(self).list_of(key@) == old(self).list_of(key@).push(item),
            forall|n: Seq<char>|
                n != key@ ==> (#[trigger] final(self).has(n) == old(self).has(n)),
            forall|n: Seq<char>|
                n != key@ ==> (#[trigger] final(self).list_of(n) == old(self).list_of(n)),
    {
        let ghost before = *self;
        let ghost k = key@;
        match self.position(&key) {
            Some(i) => {
                proof {
                    before.slot_is_value(k, i as int);
                }
                self.slots[i].value.push(item);
                assert(forall|j: int|
                    0 <= j < self.slots@.len() ==> self.slots@[j].key@
                        == #[trigger] before.slots@[j].key@);
                assert(forall|j: int|
                    0 <= j < self.slots@.len() && j != i ==> self.slots@[j]
                        == #[trigger] before.slots@[j]);
                proof {
                    self.slot_is_value(k, i as int);
                    before.others_keep_their_values(self, k);
                    assert forall|n: Seq<char>| n != k implies self.list_of(n) == before.list_of(
                        n,
                    ) by {}
                }
            },
            None => {
                let mut list: Vec<T> = Vec::new();
                list.push(item);
                self.slots.push(Slot { key, value: list });
                proof {
                    let last = before.slots@.len() as int;
                    assert(forall|j: int|
                        0 <= j < last ==> self.slots@[j] == #[trigger] before.slots@[j]);
                    assert forall|j: int| 0 <= j < last implies #[trigger] self.slots@[j].key@
                        != k by {
                        assert(!before.holds_at(k, j));
                    }
                    assert(self.holds_at(k, last));
                    assert(self.wf());
                    self.slot_is_value(k, last);
                    assert(list@ =~= Seq::<T>::empty().push(item));
                    before.others_keep_their_values(self, k);
                    assert forall|n: Seq<char>| n != k implies self.list_of(n) == before.list_of(
                        n,
                    ) by {}
                }
            },
        }
    }

    /// The list stored under `key`, if any.
    pub fn list(&self, key: &String) -> (found: Option<&Vec<T>>)
        requires
            self.wf(),
        ensures
            found is Some == self.has(key@),
            found matches Some(v) ==> v@ == self.list_of(key@) && *v == self.value_of(key@),
    {
        match self.position(key) {
            Some(i) => {
                proof {
                    self.slot_is_value(key@, i as int);
                }
                Some(&self.slots[i].value)
            },
            None => None,
        }
    }
}

} // verus!
