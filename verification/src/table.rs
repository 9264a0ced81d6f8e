//! A table of rows keyed by text, kept in the order in which the keys came.

use vstd::prelude::*;
use crate::text::str_eq;

verus! {

/// What a table holds: its keys and, at the same places, its values.
pub struct Rows<W> {
    pub keys: Seq<Seq<char>>,
    pub values: Seq<W>,
}

impl<W> Rows<W> {
    /// The table that holds nothing.
    pub open spec fn empty() -> Rows<W> {
        Rows { keys: Seq::empty(), values: Seq::empty() }
    }

    /// One value for each key, and no key twice.
    pub open spec fn wf(self) -> bool {
        &&& self.keys.len() == self.values.len()
        &&& self.keys.no_duplicates()
    }

    /// How many rows there are.
    pub open spec fn len(self) -> nat {
        self.keys.len()
    }

    /// Whether there is a row under `key`.
    pub open spec fn has(self, key: Seq<char>) -> bool {
        self.keys.contains(key)
    }

    /// The place of `key`, where the table has it.
    pub open spec fn place(self, key: Seq<char>) -> int {
        self.keys.index_of(key)
    }

    /// The value under `key`, if there is one.
    pub open spec fn get(self, key: Seq<char>) -> Option<W> {
        if self.has(key) {
            Some(self.values[self.place(key)])
        } else {
            None
        }
    }

    /// The table with `value` under `key`: in the old place where the key was
    /// there, at the end where it was not.
    pub open spec fn put(self, key: Seq<char>, value: W) -> Rows<W> {
        if self.has(key) {
            Rows { keys: self.keys, values: self.values.update(self.place(key), value) }
        } else {
            Rows { keys: self.keys.push(key), values: self.values.push(value) }
        }
    }

    /// The table without `key`.
    pub open spec fn remove(self, key: Seq<char>) -> Rows<W> {
        if self.has(key) {
            Rows {
                keys: self.keys.remove(self.place(key)),
                values: self.values.remove(self.place(key)),
            }
        } else {
            self
        }
    }

    /// The rows among the first `n` whose flag in `keep` is set.
    pub open spec fn kept(self, keep: Seq<bool>, n: int) -> Rows<W>
        decreases n,
    {
        if n <= 0 {
            Rows::empty()
        } else {
            let before = self.kept(keep, n - 1);
            if keep[n - 1] {
                Rows {
                    keys: before.keys.push(self.keys[n - 1]),
                    values: before.values.push(self.values[n - 1]),
                }
            } else {
                before
            }
        }
    }

    /// What is kept is well formed, and holds exactly the flagged rows.
    pub proof fn lemma_kept(self, keep: Seq<bool>, n: int)
        requires
            self.wf(),
            keep.len() == self.keys.len(),
            0 <= n <= self.keys.len(),
        ensures
            self.kept(keep, n).wf(),
            self.kept(keep, n).keys.len() <= n,
            forall|key: Seq<char>|
                #[trigger] self.kept(keep, n).has(key) <==> (self.has(key) && self.place(key) < n
                    && keep[self.place(key)]),
            forall|key: Seq<char>|
                self.kept(keep, n).has(key) ==> #[trigger] self.kept(keep, n).get(key) == self.get(key),
        decreases n,
    {
        if n > 0 {
            self.lemma_kept(keep, n - 1);
            let before = self.kept(keep, n - 1);
            let after = self.kept(keep, n);
            self.lemma_place(n - 1);
            if keep[n - 1] {
                let added = self.keys[n - 1];
                assert(!before.has(added));
                assert(after.keys.no_duplicates());
                after.lemma_place(before.keys.len() as int);
                assert forall|key: Seq<char>| #[trigger]
                    after.has(key) <==> (self.has(key) && self.place(key) < n && keep[self.place(
                        key,
                    )]) by {
                    if after.has(key) {
                        after.lemma_has(key);
                        let j = after.place(key);
                        if j < before.keys.len() {
                            assert(before.keys[j] == key);
                            assert(before.has(key));
                        } else {
                            assert(key == added);
                        }
                    }
                    if self.has(key) && self.place(key) < n && keep[self.place(key)] {
                        self.lemma_has(key);
                        if self.place(key) == n - 1 {
                            assert(after.keys[before.keys.len() as int] == key);
                        } else {
                            assert(before.has(key));
                            before.lemma_has(key);
                            let j = before.place(key);
                            assert(after.keys[j] == key);
                        }
                    }
                }
                assert forall|key: Seq<char>| after.has(key) implies #[trigger] after.get(key)
                    == self.get(key) by {
                    if key == added {
                    } else {
                        after.lemma_has(key);
                        let at = after.place(key);
                        assert(before.keys[at] == key);
                        assert(before.has(key));
                        before.lemma_has(key);
                        let j = before.place(key);
                        assert(after.keys[j] == key);
                        after.lemma_place(j);
                        before.lemma_place(j);
                    }
                }
            }
        }
    }

    /// In a well-formed table the key at place `i` is found at place `i`.
    pub proof fn lemma_place(self, i: int)
        requires
            self.wf(),
            0 <= i < self.keys.len(),
        ensures
            self.has(self.keys[i]),
            self.place(self.keys[i]) == i,
            self.get(self.keys[i]) == Some(self.values[i]),
    {
        let j = self.keys.index_of(self.keys[i]);
        assert(self.keys[j] == self.keys[i]);
    }

    /// The place of a key that the table has is a place of the table, and holds the key.
    pub proof fn lemma_has(self, key: Seq<char>)
        requires
            self.has(key),
        ensures
            0 <= self.place(key) < self.keys.len(),
            self.keys[self.place(key)] == key,
    {
    }

    /// After a write the table is well formed, holds the value under the key, and holds
    /// every other key as before.
    pub proof fn lemma_put(self, key: Seq<char>, value: W)
        requires
            self.wf(),
        ensures
            self.put(key, value).wf(),
            self.put(key, value).get(key) == Some(value),
            forall|other: Seq<char>|
                other != key ==> #[trigger] self.put(key, value).get(other) == self.get(other),
            forall|other: Seq<char>|
                #[trigger] self.put(key, value).has(other) == (other == key || self.has(other)),
    {
        let after = self.put(key, value);
        if self.has(key) {
            let p = self.place(key);
            after.lemma_place(p);
            assert forall|other: Seq<char>| other != key implies #[trigger] after.get(other)
                == self.get(other) by {
                if self.has(other) {
                    assert(after.place(other) == self.place(other));
                }
            }
        } else {
            assert(after.keys.no_duplicates());
            after.lemma_place(self.keys.len() as int);
            assert forall|other: Seq<char>|
                #[trigger] after.has(other) == (other == key || self.has(other)) by {
                if self.has(other) {
                    let j = self.place(other);
                    assert(after.keys[j] == other);
                }
                if after.has(other) && other != key {
                    let j = after.place(other);
                    assert(self.keys[j] == other);
                }
            }
            assert forall|other: Seq<char>| other != key implies #[trigger] after.get(other)
                == self.get(other) by {
                if self.has(other) {
                    let j = self.place(other);
                    after.lemma_place(j);
                }
            }
        }
    }

    /// After a removal the table is well formed, lacks the key, and holds every other
    /// key as before.
    pub proof fn lemma_remove(self, key: Seq<char>)
        requires
            self.wf(),
        ensures
            self.remove(key).wf(),
            !self.remove(key).has(key),
            forall|other: Seq<char>|
                other != key ==> #[trigger] self.remove(key).get(other) == self.get(other),
            forall|other: Seq<char>|
                #[trigger] self.remove(key).has(other) == (other != key && self.has(other)),
    {
        let after = self.remove(key);
        if self.has(key) {
            let p = self.place(key);
            assert forall|i: int, j: int|
                0 <= i < after.keys.len() && 0 <= j < after.keys.len() && i != j implies after.keys[i]
                != after.keys[j] by {
                let a = if i < p { i } else { i + 1 };
                let b = if j < p { j } else { j + 1 };
                assert(after.keys[i] == self.keys[a]);
                assert(after.keys[j] == self.keys[b]);
            }
            assert forall|other: Seq<char>|
                #[trigger] after.has(other) == (other != key && self.has(other)) by {
                if after.has(other) {
                    let j = after.place(other);
                    let a = if j < p { j } else { j + 1 };
                    assert(self.keys[a] == other);
                }
                if other != key && self.has(other) {
                    let a = self.place(other);
                    let j = if a < p { a } else { a - 1 };
                    assert(after.keys[j] == other);
                }
            }
            assert forall|other: Seq<char>| other != key implies #[trigger] after.get(other)
                == self.get(other) by {
                if self.has(other) {
                    let a = self.place(other);
                    let j = if a < p { a } else { a - 1 };
                    assert(after.keys[j] == other);
                    after.lemma_place(j);
                }
            }
        }
    }
}

/// A table of values keyed by text.
pub struct Table<V> {
    keys: Vec<String>,
    values: Vec<V>,
}

impl<V: DeepView> View for Table<V> {
    type V = Rows<V::V>;

    closed spec fn view(&self) -> Rows<V::V> {
        Rows { keys: self.keys.deep_view(), values: self.values.deep_view() }
    }
}

impl<V: DeepView> Table<V> {
    /// A table that holds nothing.
    pub fn new() -> (t: Self)
        ensures
            t@ == Rows::<V::V>::empty(),
            t@.wf(),
    {
        let t = Table { keys: Vec::new(), values: Vec::new() };
        assert(t@.keys =~= Seq::empty());
        assert(t@.values =~= Seq::empty());
        t
    }

    /// How many rows there are.
    pub fn len(&self) -> (n: usize)
        requires
            self@.wf(),
        ensures
            n == self@.len(),
    {
        self.keys.len()
    }

    /// The place of `key`, if the table has it.
    pub fn find(&self, key: &str) -> (r: Option<usize>)
        requires
            self@.wf(),
        ensures
            match r {
                Some(i) => self@.has(key@) && i == self@.place(key@),
                None => !self@.has(key@),
            },
    {
        let mut i: usize = 0;
        while i < self.keys.len()
            invariant
                self@.wf(),
                i <= self.keys.len(),
                forall|j: int| 0 <= j < i ==> self@.keys[j] != key@,
            decreases self.keys.len() - i,
        {
            if str_eq(self.keys[i].as_str(), key) {
                assert(self@.keys[i as int] == key@);
                proof {
                    self@.lemma_place(i as int);
                }
                return Some(i);
            }
            i += 1;
        }
        None
    }

    /// Whether there is a row under `key`.
    pub fn contains_key(&self, key: &str) -> (r: bool)
        requires
            self@.wf(),
        ensures
            r == self@.has(key@),
    {
        self.find(key).is_some()
    }

    /// The value under `key`, if there is one.
    pub fn get(&self, key: &str) -> (r: Option<&V>)
        requires
            self@.wf(),
        ensures
            r.deep_view() == self@.get(key@),
    {
        match self.find(key) {
            Some(i) => Some(&self.values[i]),
            None => None,
        }
    }

    /// The key at place `i`.
    pub fn key_at(&self, i: usize) -> (r: &String)
        requires
            self@.wf(),
            i < self@.len(),
        ensures
            r@ == self@.keys[i as int],
    {
        &self.keys[i]
    }

    /// The value at place `i`.
    pub fn value_at(&self, i: usize) -> (r: &V)
        requires
            self@.wf(),
            i < self@.len(),
        ensures
            r.deep_view() == self@.values[i as int],
    {
        &self.values[i]
    }

    /// The values, in the order of their keys.
    pub fn values(&self) -> (r: &Vec<V>)
        requires
            self@.wf(),
        ensures
            r.deep_view() == self@.values,
    {
        &self.values
    }

    /// The keys, in the order in which they came.
    pub fn keys(&self) -> (r: &Vec<String>)
        requires
            self@.wf(),
        ensures
            r.deep_view() == self@.keys,
    {
        &self.keys
    }

    /// Writes `value` under `key`, over what was there.
    pub fn put(&mut self, key: String, value: V)
        requires
            old(self)@.wf(),
        ensures
            final(self)@ == old(self)@.put(key@, value.deep_view()),
            final(self)@.wf(),
    {
        proof {
            old(self)@.lemma_put(key@, value.deep_view());
        }
        match self.find(key.as_str()) {
            Some(i) => {
                self.values[i] = value;
                assert(self@.values =~= old(self)@.values.update(i as int, value.deep_view()));
            },
            None => {
                self.keys.push(key);
                self.values.push(value);
                assert(self@.keys =~= old(self)@.keys.push(key@));
                assert(self@.values =~= old(self)@.values.push(value.deep_view()));
            },
        }
    }

    /// Drops every row whose flag in `keep` is not set.
    pub fn keep_only(&mut self, keep: &Vec<bool>)
        requires
            old(self)@.wf(),
            keep.len() == old(self)@.len(),
        ensures
            final(self)@ == old(self)@.kept(keep@, keep.len() as int),
            final(self)@.wf(),
    {
        let mut i: usize = 0;
        let mut j: usize = 0;
        assert(self@.keys =~= old(self)@.kept(keep@, 0).keys + old(self)@.keys.skip(0));
        assert(self@.values =~= old(self)@.kept(keep@, 0).values + old(self)@.values.skip(0));
        while i < keep.len()
            invariant
                i <= keep.len(),
                keep.len() == old(self)@.len(),
                old(self)@.wf(),
                j == old(self)@.kept(keep@, i as int).keys.len(),
                j == old(self)@.kept(keep@, i as int).values.len(),
                self.keys.len() == j + (keep.len() - i),
                self.values.len() == self.keys.len(),
                self@.keys == old(self)@.kept(keep@, i as int).keys + old(self)@.keys.skip(i as int),
                self@.values == old(self)@.kept(keep@, i as int).values + old(self)@.values.skip(
                    i as int,
                ),
            decreases keep.len() - i,
        {
            let ghost before = self@;
            let ghost kept = old(self)@.kept(keep@, i as int);
            proof {
                old(self)@.lemma_kept(keep@, i as int);
            }
            if keep[i] {
                assert(before.keys =~= old(self)@.kept(keep@, i + 1).keys + old(self)@.keys.skip(i + 1));
                assert(before.values =~= old(self)@.kept(keep@, i + 1).values + old(self)@.values.skip(
                    i + 1,
                ));
                j += 1;
            } else {
                let _k = self.keys.remove(j);
                let _v = self.values.remove(j);
                assert(self@.keys =~= before.keys.remove(j as int));
                assert(self@.values =~= before.values.remove(j as int));
                assert(before.keys.remove(j as int) =~= kept.keys + old(self)@.keys.skip(i + 1));
                assert(before.values.remove(j as int) =~= kept.values + old(self)@.values.skip(i + 1));
            }
            i += 1;
        }
        proof {
            old(self)@.lemma_kept(keep@, keep.len() as int);
            assert(self@.keys =~= old(self)@.kept(keep@, keep.len() as int).keys);
            assert(self@.values =~= old(self)@.kept(keep@, keep.len() as int).values);
        }
    }

    /// Takes the row of `key` out and hands its value back.
    pub fn remove(&mut self, key: &str) -> (r: Option<V>)
        requires
            old(self)@.wf(),
        ensures
            final(self)@ == old(self)@.remove(key@),
            final(self)@.wf(),
            r.deep_view() == old(self)@.get(key@),
    {
        proof {
            old(self)@.lemma_remove(key@);
        }
        match self.find(key) {
            Some(i) => {
                let _k = self.keys.remove(i);
                let v = self.values.remove(i);
                assert(self@.keys =~= old(self)@.keys.remove(i as int));
                assert(self@.values =~= old(self)@.values.remove(i as int));
                Some(v)
            },
            None => None,
        }
    }
}

} // verus!
