//! Hash-map wrapper that hands out clones.
//!
//! `CloneMap` owns a standard hash map and exposes the usual operations;
//! reads hand out clones of the stored values rather than references.  The
//! functional contracts hold under the standard hashing assumptions: the key
//! type hashes deterministically (`obeys_key_model`) and the hasher is built
//! soundly (`builds_valid_hashers`) — both hold for the standard integer and
//! boolean keys and the default hasher.

use std::collections::HashMap;
use std::collections::hash_map::RandomState;
use std::hash::Hash;
use vstd::prelude::*;
use vstd::std_specs::hash::{builds_valid_hashers, obeys_key_model};

verus! {

/// The hashing assumptions under which the map's contracts are exact for
/// key type `K`.
pub open spec fn hashing_sound<K>() -> bool {
    obeys_key_model::<K>() && builds_valid_hashers::<RandomState>()
}

/// A hash map of values, read by clone.
pub struct CloneMap<K, V>(HashMap<K, V>);

impl<K, V> CloneMap<K, V> {
    /// The stored key-value pairs.
    pub closed spec fn view_map(&self) -> Map<K, V> {
        self.0@
    }

    /// An empty map.
    pub fn new() -> (m: Self)
        ensures
            m.view_map() == Map::<K, V>::empty(),
    {
        CloneMap(HashMap::new())
    }

    /// An empty map with room reserved for `capacity` entries.
    pub fn with_capacity(capacity: usize) -> (m: Self)
        ensures
            m.view_map() == Map::<K, V>::empty(),
    {
        CloneMap(HashMap::with_capacity(capacity))
    }

    /// Whether no entry is stored.
    pub fn is_empty(&self) -> (b: bool)
        ensures
            b <==> self.view_map() == Map::<K, V>::empty(),
    {
        let r = self.0.is_empty();
        proof {
            if self.0@.is_empty() {
                assert(self.view_map() =~= Map::<K, V>::empty());
            }
        }
        r
    }

    /// Number of stored entries.
    pub fn len(&self) -> (n: usize)
        ensures
            hashing_sound::<K>() ==> n == self.view_map().len(),
    {
        broadcast use vstd::std_specs::hash::group_hash_axioms;

        self.0.len()
    }

    /// Removes every entry.
    pub fn clear(&mut self)
        ensures
            final(self).view_map() == Map::<K, V>::empty(),
    {
        self.0.clear();
    }
}

impl<K: Eq + Hash, V> CloneMap<K, V> {
    /// Stores a value under a key, handing back the value the key mapped to
    /// before, if any.
    pub fn insert(&mut self, k: K, v: V) -> (r: Option<V>)
        ensures
            hashing_sound::<K>() ==> {
                &&& final(self).view_map() == old(self).view_map().insert(k, v)
                &&& match r {
                    Some(prev) => old(self).view_map().contains_key(k) && prev == old(
                        self,
                    ).view_map()[k],
                    None => !old(self).view_map().contains_key(k),
                }
            },
    {
        self.0.insert(k, v)
    }

    /// Removes a key, handing back the value it mapped to, if any.
    pub fn remove(&mut self, k: &K) -> (r: Option<V>)
        ensures
            hashing_sound::<K>() ==> {
                &&& final(self).view_map() == old(self).view_map().remove(*k)
                &&& match r {
                    Some(prev) => old(self).view_map().contains_key(*k) && prev == old(
                        self,
                    ).view_map()[*k],
                    None => !old(self).view_map().contains_key(*k),
                }
            },
    {
        broadcast use vstd::std_specs::hash::group_hash_axioms;

        self.0.remove(k)
    }

    /// Whether a key is present.
    pub fn contains_key(&self, k: &K) -> (b: bool)
        ensures
            hashing_sound::<K>() ==> (b <==> self.view_map().contains_key(*k)),
    {
        broadcast use vstd::std_specs::hash::group_hash_axioms;

        self.0.contains_key(k)
    }

    /// Reserves room for `additional` more entries; the contents are
    /// unchanged.
    pub fn reserve(&mut self, additional: usize)
        ensures
            final(self).view_map() == old(self).view_map(),
    {
        self.0.reserve(additional);
    }
}

impl<K: Eq + Hash, V: Clone> CloneMap<K, V> {
    /// A clone of the value a key maps to, or `None` for an absent key.
    pub fn get(&self, k: &K) -> (r: Option<V>)
        ensures
            hashing_sound::<K>() ==> match r {
                Some(v) => self.view_map().contains_key(*k) && cloned::<V>(
                    self.view_map()[*k],
                    v,
                ),
                None => !self.view_map().contains_key(*k),
            },
    {
        broadcast use vstd::std_specs::hash::group_hash_axioms;

        match self.0.get(k) {
            Some(v) => Some(v.clone()),
            None => None,
        }
    }
}

impl<K, V> From<HashMap<K, V>> for CloneMap<K, V> {
    /// Wraps an existing map.
    fn from(m: HashMap<K, V>) -> (r: Self) {
        CloneMap(m)
    }
}

impl<K, V> vstd::std_specs::convert::FromSpecImpl<HashMap<K, V>> for CloneMap<K, V> {
    open spec fn obeys_from_spec() -> bool {
        true
    }

    open spec fn from_spec(m: HashMap<K, V>) -> Self {
        CloneMap::spec_wrap(m)
    }
}

impl<K, V> CloneMap<K, V> {
    /// The wrapper around `m`; what `From::from` returns.
    pub closed spec fn spec_wrap(m: HashMap<K, V>) -> Self {
        CloneMap(m)
    }
}

/// The wrapper built around a map holds exactly that map's entries.
pub proof fn lemma_clone_map_wrap<K, V>(m: HashMap<K, V>)
    ensures
        CloneMap::spec_wrap(m).view_map() == m@,
{
}

impl<K, V> Default for CloneMap<K, V> {
    /// An empty map.
    fn default() -> (m: Self)
        ensures
            m.view_map() == Map::<K, V>::empty(),
    {
        CloneMap::new()
    }
}

} // verus!
