//! A map from text keys to values.
//!
//! The entries are kept in the order in which their keys first came, no key
//! occurs twice, and a later value for a key replaces the earlier one.

use vstd::prelude::*;
use crate::text::{same, to_chars, from_chars};

verus! {

/// The keys of a sequence of entries.
spec fn keys_of<V>(entries: Seq<(Vec<char>, V)>) -> Seq<Seq<char>> {
    Seq::new(entries.len(), |i: int| entries[i].0@)
}

/// A finite map keyed by text.
#[derive(Debug)]
pub struct StringMap<V> {
    entries: Vec<(Vec<char>, V)>,
}

impl<V> View for StringMap<V> {
    type V = Map<Seq<char>, V>;

    closed spec fn view(&self) -> Map<Seq<char>, V> {
        Map::new(
            |k: Seq<char>| self.keys().contains(k),
            |k: Seq<char>| self.entries@[self.keys().index_of(k)].1,
        )
    }
}

impl<V> StringMap<V> {
    /// The keys, in the order in which they first came.
    pub closed spec fn keys(&self) -> Seq<Seq<char>> {
        keys_of(self.entries@)
    }

    #[verifier::type_invariant]
    spec fn distinct(&self) -> bool {
        self.keys().no_duplicates()
    }

    /// A map without entries.
    pub fn new() -> (m: Self)
        ensures
            m@ == Map::<Seq<char>, V>::empty(),
            m.keys() == Seq::<Seq<char>>::empty(),
    {
        let m = StringMap { entries: Vec::new() };
        assert(m.keys() =~= Seq::<Seq<char>>::empty());
        assert(m@ =~= Map::<Seq<char>, V>::empty());
        m
    }

    /// The number of entries.
    pub fn len(&self) -> (n: usize)
        ensures
            n == self@.dom().len(),
            n == self.keys().len(),
    {
        proof {
            use_type_invariant(self);
            assert(self@.dom() =~= self.keys().to_set());
            self.keys().unique_seq_to_set();
        }
        self.entries.len()
    }

    /// Whether the map has no entry.
    pub fn is_empty(&self) -> (b: bool)
        ensures
            b == (self@.dom().len() == 0),
    {
        self.len() == 0
    }

    /// The place of `key` among the entries.
    fn position(&self, key: &[char]) -> (r: Option<usize>)
        ensures
            match r {
                Some(i) => i < self.keys().len() && self.keys()[i as int] == key@,
                None => !self.keys().contains(key@),
            },
    {
        let mut i: usize = 0;
        while i < self.entries.len()
            invariant
                i <= self.entries.len(),
                forall|j: int| 0 <= j < i ==> self.keys()[j] != key@,
            decreases self.entries.len() - i,
        {
            if same(self.entries[i].0.as_slice(), key) {
                return Some(i);
            }
            i += 1;
        }
        None
    }

    /// Whether `key` has a value.
    pub fn contains_key(&self, key: &str) -> (b: bool)
        ensures
            b == self@.contains_key(key@),
    {
        let k = to_chars(key);
        self.position(k.as_slice()).is_some()
    }

    /// The value of `key`, given as text.
    pub fn get_text(&self, key: &[char]) -> (r: Option<&V>)
        ensures
            match r {
                Some(v) => self@.contains_key(key@) && *v == self@[key@],
                None => !self@.contains_key(key@),
            },
    {
        proof {
            use_type_invariant(self);
        }
        match self.position(key) {
            Some(i) => {
                assert(self.keys().index_of(key@) == i);
                Some(&self.entries[i].1)
            },
            None => None,
        }
    }

    /// The value of `key`.
    pub fn get(&self, key: &str) -> (r: Option<&V>)
        ensures
            match r {
                Some(v) => self@.contains_key(key@) && *v == self@[key@],
                None => !self@.contains_key(key@),
            },
    {
        let k = to_chars(key);
        self.get_text(k.as_slice())
    }

    /// Gives `key` the value `value`, in place of the value it had, if any.
    pub fn insert_text(&mut self, key: Vec<char>, value: V)
        ensures
            final(self)@ == old(self)@.insert(key@, value),
            final(self).keys() == if old(self).keys().contains(key@) {
                old(self).keys()
            } else {
                old(self).keys().push(key@)
            },
    {
        proof {
            use_type_invariant(&*self);
        }
        let ghost before = *self;
        let place = self.position(key.as_slice());
        let mut entries: Vec<(Vec<char>, V)> = Vec::new();
        assert(keys_of(entries@) =~= Seq::<Seq<char>>::empty());
        core::mem::swap(&mut self.entries, &mut entries);
        match place {
            Some(i) => {
                entries.set(i, (key, value));
                assert(keys_of(entries@) =~= before.keys());
            },
            None => {
                entries.push((key, value));
                assert(keys_of(entries@) =~= before.keys().push(key@));
            },
        }
        core::mem::swap(&mut self.entries, &mut entries);
        proof {
            let n = before.keys().len() as int;
            assert forall|k: Seq<char>| self@.contains_key(k) <==> before@.insert(
                key@,
                value,
            ).contains_key(k) by {
                if before.keys().contains(k) {
                    let j = before.keys().index_of(k);
                    assert(self.keys()[j] == k);
                }
                if k == key@ && place is None {
                    assert(self.keys()[n] == k);
                }
            }
            assert forall|k: Seq<char>| self@.contains_key(k) implies #[trigger] self@[k]
                == before@.insert(key@, value)[k] by {
                let j = self.keys().index_of(k);
                match place {
                    Some(i) => {
                        assert(before.keys()[j] == k);
                        if k == key@ {
                            assert(j == i);
                        } else {
                            assert(j != i);
                        }
                    },
                    None => {
                        if k == key@ {
                            assert(self.keys()[n] == k);
                            assert(j == n);
                        } else {
                            assert(j != n);
                            assert(before.keys()[j] == k);
                            let j0 = before.keys().index_of(k);
                            assert(self.keys()[j0] == k);
                            assert(j0 == j);
                        }
                    },
                }
            }
            assert(self@ =~= before@.insert(key@, value));
        }
    }

    /// Gives `key` the value `value`, in place of the value it had, if any.
    pub fn insert(&mut self, key: String, value: V)
        ensures
            final(self)@ == old(self)@.insert(key@, value),
            final(self).keys() == if old(self).keys().contains(key@) {
                old(self).keys()
            } else {
                old(self).keys().push(key@)
            },
    {
        let k = to_chars(key.as_str());
        self.insert_text(k, value)
    }

    /// The key of the entry at place `i`.
    pub fn key_at(&self, i: usize) -> (k: String)
        requires
            i < self.keys().len(),
        ensures
            k@ == self.keys()[i as int],
    {
        from_chars(self.entries[i].0.as_slice())
    }

    /// The value of the entry at place `i`.
    pub fn value_at(&self, i: usize) -> (v: &V)
        requires
            i < self.keys().len(),
        ensures
            self@.contains_key(self.keys()[i as int]),
            *v == self@[self.keys()[i as int]],
    {
        proof {
            use_type_invariant(self);
            let k = self.keys()[i as int];
            assert(self.keys().contains(k));
            assert(self.keys().index_of(k) == i);
        }
        &self.entries[i].1
    }
}

} // verus!
