//! A map keyed by strings: a vector of entries with distinct keys, viewed as a
//! mathematical map from character sequences to values.
use vstd::prelude::*;
use crate::text::str_eq;

verus! {

/// A string-keyed map. Inserting an existing key replaces its value.
pub struct StrMap<V> {
    entries: Vec<(String, V)>,
    model: Ghost<Map<Seq<char>, V>>,
}

impl<V> View for StrMap<V> {
    type V = Map<Seq<char>, V>;

    closed spec fn view(&self) -> Map<Seq<char>, V> {
        self.model@
    }
}

/// The keys of `s`, in order.
pub open spec fn keys_of<V>(s: Seq<(String, V)>) -> Seq<Seq<char>> {
    s.map_values(|e: (String, V)| e.0@)
}

impl<V> StrMap<V> {
    /// The keys in the order in which `len`, `key_at` and `value_at` walk them.
    pub closed spec fn keys(&self) -> Seq<Seq<char>> {
        keys_of(self.entries@)
    }

    /// The entries agree with the map and no key occurs twice.
    pub closed spec fn wf(&self) -> bool {
        &&& forall|i: int|
            0 <= i < self.entries@.len() ==> {
                &&& self.model@.contains_key(#[trigger] self.entries@[i].0@)
                &&& self.model@[self.entries@[i].0@] == self.entries@[i].1
            }
        &&& forall|k: Seq<char>|
            #[trigger] self.model@.contains_key(k) ==> exists|i: int|
                0 <= i < self.entries@.len() && self.entries@[i].0@ == k
        &&& forall|i: int, j: int|
            0 <= i < j < self.entries@.len() ==> self.entries@[i].0@ != self.entries@[j].0@
    }

    /// The empty map.
    pub fn new() -> (m: Self)
        ensures
            m.wf(),
            m@ == Map::<Seq<char>, V>::empty(),
    {
        StrMap { entries: Vec::new(), model: Ghost(Map::empty()) }
    }

    fn find(&self, key: &str) -> (r: Option<usize>)
        requires
            self.wf(),
        ensures
            match r {
                Some(i) => i < self.entries@.len() && self.entries@[i as int].0@ == key@,
                None => !self@.contains_key(key@),
            },
    {
        let mut i: usize = 0;
        while i < self.entries.len()
            invariant
                self.wf(),
                i <= self.entries@.len(),
                forall|j: int| 0 <= j < i ==> self.entries@[j].0@ != key@,
            decreases self.entries@.len() - i,
        {
            if str_eq(self.entries[i].0.as_str(), key) {
                return Some(i);
            }
            i = i + 1;
        }
        None
    }

    /// The value under `key`, if any.
    pub fn get(&self, key: &str) -> (r: Option<&V>)
        requires
            self.wf(),
        ensures
            r == (if self@.contains_key(key@) {
                Some(&self@[key@])
            } else {
                None::<&V>
            }),
    {
        match self.find(key) {
            Some(i) => Some(&self.entries[i].1),
            None => None,
        }
    }

    /// Whether `key` has a value.
    pub fn contains_key(&self, key: &str) -> (r: bool)
        requires
            self.wf(),
        ensures
            r == self@.contains_key(key@),
    {
        self.find(key).is_some()
    }

    /// Puts `value` under `key`, replacing what was there.
    pub fn insert(&mut self, key: String, value: V)
        requires
            old(self).wf(),
        ensures
            final(self).wf(),
            final(self)@ == old(self)@.insert(key@, value),
    {
        let ghost k = key@;
        let ghost v = value;
        let ghost old_entries = self.entries@;
        let found = self.find(key.as_str());
        match found {
            Some(i) => {
                self.entries.set(i, (key, value));
                assert forall|j: int| 0 <= j < self.entries@.len() && j != i implies
                    self.entries@[j].0@ != k by {
                    assert(self.entries@[j] == old_entries[j]);
                }
            },
            None => {
                self.entries.push((key, value));
            },
        }
        self.model = Ghost(self.model@.insert(k, v));
        assert forall|kk: Seq<char>| #[trigger] self.model@.contains_key(kk) implies exists|i: int|
            0 <= i < self.entries@.len() && self.entries@[i].0@ == kk by {
            if kk != k {
                let i0 = choose|i: int| 0 <= i < old_entries.len() && old_entries[i].0@ == kk;
                assert(self.entries@[i0] == old_entries[i0]);
            } else {
                match found {
                    Some(i) => { assert(self.entries@[i as int].0@ == kk); },
                    None => { assert(self.entries@[old_entries.len() as int].0@ == kk); },
                }
            }
        }
    }

    /// The number of entries.
    pub fn len(&self) -> (n: usize)
        requires
            self.wf(),
        ensures
            n == self.keys().len(),
            n == self@.len(),
    {
        proof { self.lemma_keys(); }
        self.entries.len()
    }

    /// The key of the `i`-th entry.
    pub fn key_at(&self, i: usize) -> (k: &String)
        requires
            self.wf(),
            i < self.keys().len(),
        ensures
            k@ == self.keys()[i as int],
    {
        &self.entries[i].0
    }

    /// The value of the `i`-th entry.
    pub fn value_at(&self, i: usize) -> (v: &V)
        requires
            self.wf(),
            i < self.keys().len(),
        ensures
            *v == self@[self.keys()[i as int]],
    {
        &self.entries[i].1
    }

    /// The walk order lists each key of the map exactly once.
    pub proof fn lemma_keys(&self)
        requires
            self.wf(),
        ensures
            self.keys().no_duplicates(),
            forall|k: Seq<char>| self@.contains_key(k) <==> self.keys().contains(k),
            self.keys().len() == self@.len(),
            self@.dom().finite(),
    {
        let ks = self.keys();
        assert forall|k: Seq<char>| self@.contains_key(k) <==> ks.contains(k) by {
            if self@.contains_key(k) {
                let i = choose|i: int| 0 <= i < self.entries@.len() && self.entries@[i].0@ == k;
                assert(ks[i] == k);
            }
            if ks.contains(k) {
                let i = choose|i: int| 0 <= i < ks.len() && ks[i] == k;
                assert(self.model@.contains_key(self.entries@[i].0@));
            }
        }
        assert(ks.no_duplicates());
        assert(self@.dom() =~= ks.to_set());
        ks.unique_seq_to_set();
    }
}

} // verus!
