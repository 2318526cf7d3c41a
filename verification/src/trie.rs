//! A map of state that is never changed in place: every change gives a new
//! map and leaves the old one as it was.

use crate::hash::Digest;
use crate::persistent::PersistentMap;
use vstd::prelude::*;

verus! {

/// An immutable map from identifiers to values.
pub struct Trie<V>(PersistentMap<V>);

impl<V> View for Trie<V> {
    type V = Map<Digest, V>;

    closed spec fn view(&self) -> Map<Digest, V> {
        self.0@
    }
}

impl<V> Trie<V> {
    /// The map without entries.
    pub fn new() -> (r: Trie<V>)
        ensures
            r@ == Map::<Digest, V>::empty(),
    {
        Trie(PersistentMap::new())
    }

    /// The value of the key, if it has one.
    pub fn get(&self, key: &Digest) -> (r: Option<&V>)
        ensures
            match r {
                Some(v) => self@.dom().contains(*key) && *v == self@[*key],
                None => !self@.dom().contains(*key),
            },
    {
        self.0.lookup(key)
    }

    /// Whether the map has a value for the key.
    pub fn contains(&self, key: &Digest) -> (r: bool)
        ensures
            r == self@.dom().contains(*key),
    {
        self.0.contains_key(key)
    }

    /// The map with the value put at the key, in place of the value that
    /// was there if there was one.
    pub fn put(self, key: Digest, value: V) -> (r: Trie<V>)
        ensures
            r@ == self@.insert(key, value),
    {
        if self.0.contains_key(&key) {
            match self.0.replace(&key, value) {
                Ok(next) => Trie(next),
                Err(_) => vstd::pervasive::unreached(),
            }
        } else {
            match self.0.insert(key, value) {
                Ok(next) => Trie(next),
                Err(_) => vstd::pervasive::unreached(),
            }
        }
    }

    /// The map without the key; the same map where the key has no value.
    pub fn remove(self, key: &Digest) -> (r: Trie<V>)
        ensures
            r@ == self@.remove(*key),
    {
        match self.0.remove(key) {
            Ok(next) => Trie(next),
            Err(_) => {
                proof {
                    assert(self@.remove(*key) =~= self@);
                }
                self
            },
        }
    }

    /// Whether the map has no entry.
    pub fn is_empty(&self) -> (r: bool)
        ensures
            r == (self@ == Map::<Digest, V>::empty()),
    {
        self.0.is_empty()
    }

    /// Another handle on the same map.
    pub fn share(&self) -> (r: Trie<V>)
        ensures
            r@ == self@,
    {
        Trie(self.0.share())
    }
}

} // verus!
