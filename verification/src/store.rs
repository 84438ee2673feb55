//! An owned table keyed by text, which keeps its entries in the order in
//! which they were inserted and never holds a key twice.

use vstd::prelude::*;

verus! {

/// The model of a table: the keys in insertion order, and the value stored
/// under each of them at the same position.
pub struct TableView<T> {
    pub keys: Seq<Seq<char>>,
    pub vals: Seq<T>,
}

impl<T> TableView<T> {
    /// The table without entries.
    pub open spec fn empty() -> Self {
        TableView { keys: Seq::empty(), vals: Seq::empty() }
    }

    /// Every key has exactly one value and occurs once.
    pub open spec fn wf(self) -> bool {
        &&& self.keys.len() == self.vals.len()
        &&& forall|i: int, j: int|
            0 <= i < self.keys.len() && 0 <= j < self.keys.len() && i != j ==> self.keys[i]
                != self.keys[j]
    }

    pub open spec fn len(self) -> nat {
        self.keys.len()
    }

    pub open spec fn contains(self, key: Seq<char>) -> bool {
        exists|i: int| 0 <= i < self.keys.len() && self.keys[i] == key
    }

    /// The position of `key`; meaningful only when the table contains it.
    pub open spec fn index_of(self, key: Seq<char>) -> int {
        choose|i: int| 0 <= i < self.keys.len() && self.keys[i] == key
    }

    pub open spec fn get(self, key: Seq<char>) -> Option<T> {
        if self.contains(key) {
            Some(self.vals[self.index_of(key)])
        } else {
            None
        }
    }

    /// The table with a new last entry.
    pub open spec fn insert(self, key: Seq<char>, value: T) -> Self {
        TableView { keys: self.keys.push(key), vals: self.vals.push(value) }
    }

    /// The table with the value at position `i` replaced.
    pub open spec fn update_at(self, i: int, value: T) -> Self {
        TableView { keys: self.keys, vals: self.vals.update(i, value) }
    }

    /// The table with the value under `key` replaced.
    pub open spec fn update(self, key: Seq<char>, value: T) -> Self {
        self.update_at(self.index_of(key), value)
    }

    /// The table without the entry at position `i`.
    pub open spec fn remove_at(self, i: int) -> Self {
        TableView { keys: self.keys.remove(i), vals: self.vals.remove(i) }
    }

    /// The table without `key`; unchanged when the key is absent.
    pub open spec fn remove(self, key: Seq<char>) -> Self {
        if self.contains(key) {
            self.remove_at(self.index_of(key))
        } else {
            self
        }
    }

    /// The positions among the first `n` entries, in ascending order, whose
    /// value satisfies `pred`.
    pub open spec fn positions_where(self, pred: spec_fn(T) -> bool, n: int) -> Seq<int>
        decreases n,
    {
        if n <= 0 {
            Seq::empty()
        } else {
            let rest = self.positions_where(pred, n - 1);
            if pred(self.vals[n - 1]) {
                rest.push(n - 1)
            } else {
                rest
            }
        }
    }

    /// Selected positions lie within the range searched, and there are no
    /// more of them than entries searched.
    pub proof fn lemma_positions_where(self, pred: spec_fn(T) -> bool, n: int)
        requires
            0 <= n,
        ensures
            self.positions_where(pred, n).len() <= n,
            forall|k: int|
                0 <= k < self.positions_where(pred, n).len() ==> 0 <= (
                #[trigger] self.positions_where(pred, n)[k]) < n,
        decreases n,
    {
        if n > 0 {
            self.lemma_positions_where(pred, n - 1);
        }
    }

    /// In a well-formed table a key is found exactly at its own position.
    pub proof fn lemma_position(self, i: int)
        requires
            self.wf(),
            0 <= i < self.keys.len(),
        ensures
            self.contains(self.keys[i]),
            self.index_of(self.keys[i]) == i,
            self.get(self.keys[i]) == Some(self.vals[i]),
    {
    }

    /// A contained key has a position within the table.
    pub proof fn lemma_index_of(self, key: Seq<char>)
        requires
            self.contains(key),
        ensures
            0 <= self.index_of(key) < self.keys.len(),
            self.keys[self.index_of(key)] == key,
    {
    }

    /// Inserting a fresh key keeps the table well formed, makes the key
    /// readable and leaves every other key as it was.
    pub proof fn lemma_insert(self, key: Seq<char>, value: T)
        requires
            self.wf(),
            !self.contains(key),
        ensures
            self.insert(key, value).wf(),
            self.insert(key, value).contains(key),
            self.insert(key, value).index_of(key) == self.keys.len(),
            self.insert(key, value).get(key) == Some(value),
            forall|k: Seq<char>|
                k != key ==> #[trigger] self.insert(key, value).contains(k) == self.contains(k),
            forall|k: Seq<char>|
                k != key ==> #[trigger] self.insert(key, value).get(k) == self.get(k),
    {
        let t = self.insert(key, value);
        let n = self.keys.len() as int;
        assert(t.keys[n] == key);
        assert forall|i: int, j: int|
            0 <= i < t.keys.len() && 0 <= j < t.keys.len() && i != j implies t.keys[i]
            != t.keys[j] by {
            if i < n && j < n {
                assert(t.keys[i] == self.keys[i]);
                assert(t.keys[j] == self.keys[j]);
            } else if i < n {
                assert(t.keys[i] == self.keys[i]);
            } else {
                assert(t.keys[j] == self.keys[j]);
            }
        }
        t.lemma_position(n);
        assert forall|k: Seq<char>| k != key implies #[trigger] t.contains(k) == self.contains(
            k,
        ) && t.get(k) == self.get(k) by {
            if self.contains(k) {
                let i = self.index_of(k);
                assert(t.keys[i] == k);
                t.lemma_position(i);
                self.lemma_position(i);
            }
            if t.contains(k) {
                let i = t.index_of(k);
                assert(i < n);
                assert(self.keys[i] == k);
            }
        }
    }

    /// Removing a key that has just been inserted gives the table back.
    pub proof fn lemma_insert_then_remove(self, key: Seq<char>, value: T)
        requires
            self.wf(),
            !self.contains(key),
        ensures
            self.insert(key, value).remove(key) == self,
    {
        self.lemma_insert(key, value);
        let t = self.insert(key, value);
        t.lemma_index_of(key);
        assert(t.remove(key).keys =~= self.keys);
        assert(t.remove(key).vals =~= self.vals);
    }

    /// Replacing a value keeps the keys, makes the new value readable under
    /// its key and leaves every other key as it was.
    pub proof fn lemma_update_at(self, i: int, value: T)
        requires
            self.wf(),
            0 <= i < self.keys.len(),
        ensures
            self.update_at(i, value).wf(),
            self.update_at(i, value) == self.update(self.keys[i], value),
            self.update_at(i, value).get(self.keys[i]) == Some(value),
            forall|k: Seq<char>| #[trigger]
                self.update_at(i, value).contains(k) == self.contains(k),
            forall|k: Seq<char>|
                k != self.keys[i] ==> #[trigger] self.update_at(i, value).get(k) == self.get(k),
    {
        let t = self.update_at(i, value);
        self.lemma_position(i);
        t.lemma_position(i);
        assert forall|k: Seq<char>| #[trigger] t.contains(k) == self.contains(k) by {
            if self.contains(k) {
                assert(t.keys[self.index_of(k)] == k);
            }
            if t.contains(k) {
                assert(self.keys[t.index_of(k)] == k);
            }
        }
        assert forall|k: Seq<char>| k != self.keys[i] implies #[trigger] t.get(k) == self.get(
            k,
        ) by {
            if self.contains(k) {
                let j = self.index_of(k);
                self.lemma_position(j);
                t.lemma_position(j);
            }
        }
    }

    /// Removing an entry keeps the table well formed, makes its key absent
    /// and leaves every other key as it was.
    pub proof fn lemma_remove_at(self, i: int)
        requires
            self.wf(),
            0 <= i < self.keys.len(),
        ensures
            self.remove_at(i).wf(),
            self.remove_at(i) == self.remove(self.keys[i]),
            !self.remove_at(i).contains(self.keys[i]),
            forall|k: Seq<char>|
                k != self.keys[i] ==> #[trigger] self.remove_at(i).contains(k) == self.contains(k),
            forall|k: Seq<char>|
                k != self.keys[i] ==> #[trigger] self.remove_at(i).get(k) == self.get(k),
    {
        let t = self.remove_at(i);
        self.lemma_position(i);
        assert forall|a: int| 0 <= a < t.keys.len() implies t.keys[a] == self.keys[if a < i {
            a
        } else {
            a + 1
        }] && t.vals[a] == self.vals[if a < i {
            a
        } else {
            a + 1
        }] by {}
        assert forall|a: int, b: int|
            0 <= a < t.keys.len() && 0 <= b < t.keys.len() && a != b implies t.keys[a]
            != t.keys[b] by {}
        if t.contains(self.keys[i]) {
            let a = t.index_of(self.keys[i]);
            assert(t.keys[a] == self.keys[if a < i {
                a
            } else {
                a + 1
            }]);
        }
        assert forall|k: Seq<char>| k != self.keys[i] implies #[trigger] t.contains(k)
            == self.contains(k) && t.get(k) == self.get(k) by {
            if self.contains(k) {
                let j = self.index_of(k);
                self.lemma_position(j);
                let a = if j < i {
                    j
                } else {
                    j - 1
                };
                assert(t.keys[a] == k);
                t.lemma_position(a);
            }
            if t.contains(k) {
                let a = t.index_of(k);
                assert(self.keys[if a < i {
                    a
                } else {
                    a + 1
                }] == k);
            }
        }
    }
}

/// The views of a list of keys.
pub open spec fn key_views(keys: Seq<String>) -> Seq<Seq<char>> {
    Seq::new(keys.len(), |i: int| keys[i]@)
}

/// The views of a list of values.
pub open spec fn value_views<V: View>(vals: Seq<V>) -> Seq<V::V> {
    Seq::new(vals.len(), |i: int| vals[i]@)
}

/// A table of values of type `V` keyed by text.
pub struct Table<V> {
    keys: Vec<String>,
    vals: Vec<V>,
}

impl<V: View> View for Table<V> {
    type V = TableView<V::V>;

    closed spec fn view(&self) -> TableView<V::V> {
        TableView { keys: key_views(self.keys@), vals: value_views(self.vals@) }
    }
}

impl<V: View> Table<V> {
    /// Creates the table without entries.
    pub fn new() -> (t: Self)
        ensures
            t@ == TableView::<V::V>::empty(),
            t@.wf(),
    {
        let t = Table { keys: Vec::new(), vals: Vec::new() };
        assert(t@.keys =~= Seq::empty());
        assert(t@.vals =~= Seq::empty());
        t
    }

    /// The number of entries.
    pub fn len(&self) -> (n: usize)
        ensures
            n == self@.keys.len(),
    {
        self.keys.len()
    }

    /// Looks for `key` and returns its position.
    pub fn find(&self, key: &String) -> (r: Option<usize>)
        requires
            self@.wf(),
        ensures
            match r {
                Some(i) => i < self@.keys.len() && self@.keys[i as int] == key@
                    && self@.index_of(key@) == i && self@.contains(key@),
                None => !self@.contains(key@),
            },
    {
        let n = self.keys.len();
        let mut i: usize = 0;
        while i < n
            invariant
                self@.wf(),
                n == self@.keys.len(),
                i <= n,
                forall|j: int| 0 <= j < i ==> self@.keys[j] != key@,
            decreases n - i,
        {
            if self.keys[i] == *key {
                proof {
                    self@.lemma_position(i as int);
                }
                return Some(i);
            }
            i = i + 1;
        }
        None
    }

    /// Whether the table holds `key`.
    pub fn contains_key(&self, key: &String) -> (b: bool)
        requires
            self@.wf(),
        ensures
            b == self@.contains(key@),
    {
        self.find(key).is_some()
    }

    /// The key at position `i`.
    pub fn key_at(&self, i: usize) -> (k: &String)
        requires
            self@.wf(),
            i < self@.keys.len(),
        ensures
            k@ == self@.keys[i as int],
    {
        &self.keys[i]
    }

    /// The value at position `i`.
    pub fn value_at(&self, i: usize) -> (v: &V)
        requires
            self@.wf(),
            i < self@.keys.len(),
        ensures
            v@ == self@.vals[i as int],
    {
        &self.vals[i]
    }

    /// The value stored under `key`, if there is one.
    pub fn get(&self, key: &String) -> (r: Option<&V>)
        requires
            self@.wf(),
        ensures
            match r {
                Some(v) => self@.get(key@) == Some(v@),
                None => self@.get(key@) is None,
            },
    {
        match self.find(key) {
            Some(i) => Some(&self.vals[i]),
            None => None,
        }
    }

    /// Adds a new last entry under a key that the table does not hold yet.
    pub fn insert(&mut self, key: String, value: V)
        requires
            old(self)@.wf(),
            !old(self)@.contains(key@),
        ensures
            final(self)@ == old(self)@.insert(key@, value@),
            final(self)@.wf(),
    {
        proof {
            old(self)@.lemma_insert(key@, value@);
        }
        self.keys.push(key);
        self.vals.push(value);
        assert(self@.keys =~= old(self)@.keys.push(key@));
        assert(self@.vals =~= old(self)@.vals.push(value@));
    }

    /// Replaces the value at position `i`.
    pub fn set_at(&mut self, i: usize, value: V)
        requires
            old(self)@.wf(),
            i < old(self)@.keys.len(),
        ensures
            final(self)@ == old(self)@.update_at(i as int, value@),
            final(self)@.wf(),
    {
        proof {
            old(self)@.lemma_update_at(i as int, value@);
        }
        self.vals.set(i, value);
        assert(self@.keys =~= old(self)@.keys);
        assert(self@.vals =~= old(self)@.vals.update(i as int, value@));
    }

    /// Removes the entry at position `i`, keeping the order of the others.
    pub fn remove_at(&mut self, i: usize)
        requires
            old(self)@.wf(),
            i < old(self)@.keys.len(),
        ensures
            final(self)@ == old(self)@.remove_at(i as int),
            final(self)@.wf(),
    {
        proof {
            old(self)@.lemma_remove_at(i as int);
        }
        self.keys.remove(i);
        self.vals.remove(i);
        assert(self@.keys =~= old(self)@.keys.remove(i as int));
        assert(self@.vals =~= old(self)@.vals.remove(i as int));
    }

    /// Builds a table from its keys and, at the same positions, its values.
    /// The lists must be equally long and no key may occur twice; otherwise
    /// there is no such table.
    pub fn from_parts(keys: Vec<String>, vals: Vec<V>) -> (r: Option<Self>)
        ensures
            match r {
                Some(t) => t@.wf() && t@ == (TableView {
                    keys: key_views(keys@),
                    vals: value_views(vals@),
                }),
                None => !(TableView { keys: key_views(keys@), vals: value_views(vals@) }).wf(),
            },
    {
        let n = keys.len();
        if vals.len() != n {
            return None;
        }
        let ghost model = TableView { keys: key_views(keys@), vals: value_views(vals@) };
        let mut i: usize = 0;
        while i < n
            invariant
                n == keys@.len(),
                i <= n,
                model.keys == key_views(keys@),
                forall|a: int, b: int| 0 <= a < b < i ==> model.keys[a] != model.keys[b],
            decreases n - i,
        {
            let mut j: usize = 0;
            while j < i
                invariant
                    n == keys@.len(),
                    i < n,
                    j <= i,
                    model.keys == key_views(keys@),
                    forall|a: int| 0 <= a < j ==> model.keys[a] != model.keys[i as int],
                decreases i - j,
            {
                if keys[j] == keys[i] {
                    assert(model.keys[j as int] == model.keys[i as int]);
                    return None;
                }
                j = j + 1;
            }
            i = i + 1;
        }
        Some(Table { keys, vals })
    }

    /// Takes a table apart into its keys and, at the same positions, its
    /// values.
    pub fn into_parts(self) -> (r: (Vec<String>, Vec<V>))
        ensures
            self@ == (TableView { keys: key_views(r.0@), vals: value_views(r.1@) }),
    {
        (self.keys, self.vals)
    }
}

} // verus!
