//! A map from strings to values, kept as a list with each key once.

use vstd::prelude::*;
use crate::text::{vec_eq, vec_of};

verus! {

/// A map from strings to values.
#[derive(Debug)]
pub struct KeyedList<V> {
    entries: Vec<(String, V)>,
}

impl<V> KeyedList<V> {
    /// The keys, in insertion order.
    pub closed spec fn key_seq(&self) -> Seq<Seq<char>> {
        Seq::new(self.entries@.len(), |i: int| self.entries@[i].0@)
    }

    /// No key occurs twice.
    #[verifier::type_invariant]
    closed spec fn keys_unique(self) -> bool {
        self.key_seq().no_duplicates()
    }
}

impl<V> View for KeyedList<V> {
    type V = Map<Seq<char>, V>;

    closed spec fn view(&self) -> Map<Seq<char>, V> {
        Map::new(
            |k: Seq<char>| self.key_seq().contains(k),
            |k: Seq<char>| self.entries@[self.key_seq().index_of(k)].1,
        )
    }
}

impl<V> KeyedList<V> {
    /// An empty map.
    pub fn new() -> (r: Self)
        ensures
            r@ == Map::<Seq<char>, V>::empty(),
    {
        let r = KeyedList { entries: Vec::new() };
        assert(r@ =~= Map::<Seq<char>, V>::empty());
        r
    }

    /// Index of `key` among the entries, or the number of entries.
    fn position(&self, key: &Vec<char>) -> (r: usize)
        ensures
            r <= self.entries@.len(),
            r < self.entries@.len() ==> self.key_seq()[r as int] == key@,
            r == self.entries@.len() ==> !self.key_seq().contains(key@),
    {
        let mut i: usize = 0;
        while i < self.entries.len()
            invariant
                i <= self.entries@.len(),
                forall|j: int| 0 <= j < i ==> self.key_seq()[j] != key@,
            decreases self.entries.len() - i,
        {
            if vec_eq(&vec_of(self.entries[i].0.as_str()), key) {
                return i;
            }
            i += 1;
        }
        i
    }

    /// Whether `key` has a value.
    pub fn contains_key(&self, key: &str) -> (r: bool)
        ensures
            r == self@.contains_key(key@),
    {
        let i = self.position(&vec_of(key));
        proof {
            if i < self.entries.len() {
                assert(self.key_seq().contains(key@));
            }
        }
        i < self.entries.len()
    }

    /// The value of `key`, if it has one.
    pub fn get(&self, key: &str) -> (r: Option<&V>)
        ensures
            match r {
                Some(v) => self@.contains_key(key@) && *v == self@[key@],
                None => !self@.contains_key(key@),
            },
    {
        proof {
            use_type_invariant(self);
        }
        let i = self.position(&vec_of(key));
        if i < self.entries.len() {
            proof {
                assert(self.key_seq().contains(key@));
                assert(self.key_seq().index_of(key@) == i);
            }
            Some(&self.entries[i].1)
        } else {
            None
        }
    }

    /// Sets the value of `key`.
    pub fn insert(&mut self, key: String, value: V)
        ensures
            final(self)@ == old(self)@.insert(key@, value),
    {
        proof {
            use_type_invariant(&*self);
        }
        let k = vec_of(key.as_str());
        let i = self.position(&k);
        let ghost old_keys = self.key_seq();
        let ghost old_view = self@;
        let ghost kv = key@;
        let mut entries: Vec<(String, V)> = Vec::new();
        std::mem::swap(&mut entries, &mut self.entries);
        if i < entries.len() {
            entries.set(i, (key, value));
            proof {
                let ks = Seq::new(entries@.len(), |j: int| entries@[j].0@);
                assert(ks =~= old_keys);
            }
        } else {
            entries.push((key, value));
            proof {
                let ks = Seq::new(entries@.len(), |j: int| entries@[j].0@);
                assert(ks =~= old_keys.push(kv));
            }
        }
        self.entries = entries;
        proof {
            let ks = self.key_seq();
            assert forall|x: Seq<char>| #[trigger] self@.contains_key(x) == old_view.insert(
                kv,
                value,
            ).contains_key(x) by {
                if x == kv {
                    assert(ks[i as int] == x);
                } else if old_keys.contains(x) {
                    let j = old_keys.index_of(x);
                    assert(ks[j] == x);
                } else if ks.contains(x) {
                    let j = ks.index_of(x);
                    assert(old_keys[j] == x);
                }
            }
            assert forall|x: Seq<char>| #[trigger] self@.contains_key(x) implies self@[x]
                == old_view.insert(kv, value)[x] by {
                let j = ks.index_of(x);
                if x == kv {
                    assert(ks[i as int] == x);
                    assert(j == i);
                } else {
                    let j0 = old_keys.index_of(x);
                    assert(old_keys.contains(x)) by {
                        assert(old_keys[j] == x);
                    }
                    assert(j0 == j);
                }
            }
            assert(self@ =~= old_view.insert(kv, value));
        }
    }

    /// Sets the value of `key` unless it has one already.
    pub fn insert_if_absent(&mut self, key: String, value: V)
        ensures
            old(self)@.contains_key(key@) ==> final(self)@ == old(self)@,
            !old(self)@.contains_key(key@) ==> final(self)@ == old(self)@.insert(key@, value),
    {
        if !self.contains_key(key.as_str()) {
            self.insert(key, value);
        }
    }
}

} // verus!
