//! Hash-based collections of the world, kept in bevy's hash map and hash set.
//!
//! Verus does not read these collections: each is held in a private field of a
//! struct that Verus treats as opaque, its contents are named by a spec
//! function, and every operation the library uses is a small wrapper whose
//! contract states what the operation does to the contents.

use vstd::prelude::*;
use crate::coords::{DD, DDD};
use crate::chunk::Chunk;

verus! {

/// The loaded chunks, keyed by chunk column.
#[verifier::external_body]
pub struct ChunkStore {
    map: bevy::utils::HashMap<DD, Chunk>,
}

/// The chunks held by a store, by chunk column.
pub uninterp spec fn chunk_store_contents(store: ChunkStore) -> Map<DD, Chunk>;

impl View for ChunkStore {
    type V = Map<DD, Chunk>;

    open spec fn view(&self) -> Map<DD, Chunk> {
        chunk_store_contents(*self)
    }
}

impl ChunkStore {
    /// `HashMap::default`: a new map holds no entry.
    #[verifier::external_body]
    pub(crate) fn new() -> (r: ChunkStore)
        ensures
            chunk_store_contents(r).dom() == Set::<DD>::empty(),
    {
        ChunkStore { map: bevy::utils::HashMap::default() }
    }

    /// `HashMap::get`: the chunk stored under `k`, if any.
    #[verifier::external_body]
    pub(crate) fn get(&self, k: &DD) -> (r: Option<&Chunk>)
        ensures
            match r {
                Some(c) => chunk_store_contents(*self).contains_key(*k) && *c == chunk_store_contents(*self)[*k],
                None => !chunk_store_contents(*self).contains_key(*k),
            },
    {
        self.map.get(k)
    }

    /// `HashMap::get_mut`: a mutable borrow of the chunk stored under `k`, if
    /// any; whatever is written through it is what the map then holds under `k`.
    /// Without an entry under `k` it only looks and leaves the map as it was.
    #[verifier::external_body]
    pub(crate) fn get_mut(&mut self, k: &DD) -> (r: Option<&mut Chunk>)
        ensures
            match r {
                Some(c) => {
                    &&& chunk_store_contents(*old(self)).contains_key(*k)
                    &&& *c == chunk_store_contents(*old(self))[*k]
                    &&& chunk_store_contents(*final(self)) == chunk_store_contents(*old(self)).insert(*k, *final(c))
                },
                None => !chunk_store_contents(*old(self)).contains_key(*k) && *final(self) == *old(self),
            },
    {
        self.map.get_mut(k)
    }

    /// `HashMap::insert`: stores `v` under `k` and hands back what was stored
    /// there before.
    #[verifier::external_body]
    pub(crate) fn insert(&mut self, k: DD, v: Chunk) -> (r: Option<Chunk>)
        ensures
            chunk_store_contents(*final(self)) == chunk_store_contents(*old(self)).insert(k, v),
            match r {
                Some(c) => chunk_store_contents(*old(self)).contains_key(k) && c == chunk_store_contents(*old(self))[k],
                None => !chunk_store_contents(*old(self)).contains_key(k),
            },
    {
        self.map.insert(k, v)
    }

    /// `HashMap::contains_key`: whether a chunk is stored under `k`.
    #[verifier::external_body]
    pub(crate) fn contains_key(&self, k: &DD) -> (r: bool)
        ensures
            r == chunk_store_contents(*self).contains_key(*k),
    {
        self.map.contains_key(k)
    }
}

/// A set of block coordinates.
#[verifier::external_body]
pub struct CoordSet {
    set: bevy::utils::HashSet<DDD>,
}

/// The coordinates held by a set.
pub uninterp spec fn coord_set_contents(set: CoordSet) -> Set<DDD>;

impl View for CoordSet {
    type V = Set<DDD>;

    open spec fn view(&self) -> Set<DDD> {
        coord_set_contents(*self)
    }
}

impl CoordSet {
    /// `HashSet::default`: a new set is empty.
    #[verifier::external_body]
    fn raw_new() -> (r: CoordSet)
        ensures
            coord_set_contents(r) == Set::<DDD>::empty(),
    {
        CoordSet { set: bevy::utils::HashSet::default() }
    }

    /// `HashSet::insert`: adds `c`; true when it was not there before.
    #[verifier::external_body]
    fn raw_insert(&mut self, c: DDD) -> (r: bool)
        ensures
            coord_set_contents(*final(self)) == coord_set_contents(*old(self)).insert(c),
            r == !coord_set_contents(*old(self)).contains(c),
    {
        self.set.insert(c)
    }

    /// `HashSet::contains`: whether `c` is in the set.
    #[verifier::external_body]
    fn raw_contains(&self, c: &DDD) -> (r: bool)
        ensures
            r == coord_set_contents(*self).contains(*c),
    {
        self.set.contains(c)
    }

    /// `HashSet::iter`, collected: every element exactly once, in the set's
    /// own iteration order, which this contract leaves open.
    #[verifier::external_body]
    fn raw_to_vec(&self) -> (r: Vec<DDD>)
        ensures
            r@.to_set() == coord_set_contents(*self),
            r@.no_duplicates(),
    {
        self.set.iter().copied().collect()
    }

    /// An empty set.
    pub fn new() -> (r: CoordSet)
        ensures
            r@ == Set::<DDD>::empty(),
    {
        Self::raw_new()
    }

    /// Adds `c`; true when it was not there before.
    pub fn insert(&mut self, c: DDD) -> (r: bool)
        ensures
            final(self)@ == old(self)@.insert(c),
            r == !old(self)@.contains(c),
    {
        self.raw_insert(c)
    }

    /// Whether `c` is in the set.
    pub fn contains(&self, c: &DDD) -> (r: bool)
        ensures
            r == self@.contains(*c),
    {
        self.raw_contains(c)
    }

    /// Every element exactly once, in an order this contract leaves open.
    pub fn to_vec(&self) -> (r: Vec<DDD>)
        ensures
            r@.to_set() == self@,
            r@.no_duplicates(),
    {
        self.raw_to_vec()
    }
}

/// Client ids mapped to a value each (the entity of a player, by its bits).
#[verifier::external_body]
pub struct ClientMap {
    map: bevy::utils::HashMap<u64, u64>,
}

/// The entries held by a client map.
pub uninterp spec fn client_map_contents(map: ClientMap) -> Map<u64, u64>;

impl View for ClientMap {
    type V = Map<u64, u64>;

    open spec fn view(&self) -> Map<u64, u64> {
        client_map_contents(*self)
    }
}

/// The keys of a list of entries, in order.
pub open spec fn entry_keys(entries: Seq<(u64, u64)>) -> Seq<u64> {
    entries.map_values(|e: (u64, u64)| e.0)
}

/// `entries` lists the entries of `m`: each key once, with its value.
pub open spec fn lists_entries(entries: Seq<(u64, u64)>, m: Map<u64, u64>) -> bool {
    &&& entry_keys(entries).to_set() == m.dom()
    &&& entry_keys(entries).no_duplicates()
    &&& forall|i: int| 0 <= i < entries.len() ==> m[(#[trigger] entries[i]).0] == entries[i].1
}

impl ClientMap {
    /// `HashMap::default`: a new map holds no entry.
    #[verifier::external_body]
    pub(crate) fn new() -> (r: ClientMap)
        ensures
            client_map_contents(r).dom() == Set::<u64>::empty(),
    {
        ClientMap { map: bevy::utils::HashMap::default() }
    }

    /// `HashMap::get`, copied out: the value stored under `k`, if any.
    #[verifier::external_body]
    pub(crate) fn get(&self, k: u64) -> (r: Option<u64>)
        ensures
            r == if client_map_contents(*self).contains_key(k) {
                Some(client_map_contents(*self)[k])
            } else {
                None
            },
    {
        self.map.get(&k).copied()
    }

    /// `HashMap::insert`: stores `v` under `k` and hands back what was stored
    /// there before.
    #[verifier::external_body]
    pub(crate) fn insert(&mut self, k: u64, v: u64) -> (r: Option<u64>)
        ensures
            client_map_contents(*final(self)) == client_map_contents(*old(self)).insert(k, v),
            r == if client_map_contents(*old(self)).contains_key(k) {
                Some(client_map_contents(*old(self))[k])
            } else {
                None
            },
    {
        self.map.insert(k, v)
    }

    /// `HashMap::remove`: takes the entry under `k` out and hands back its
    /// value, if there was one.
    #[verifier::external_body]
    pub(crate) fn remove(&mut self, k: u64) -> (r: Option<u64>)
        ensures
            client_map_contents(*final(self)) == client_map_contents(*old(self)).remove(k),
            r == if client_map_contents(*old(self)).contains_key(k) {
                Some(client_map_contents(*old(self))[k])
            } else {
                None
            },
    {
        self.map.remove(&k)
    }

    /// `HashMap::iter`, collected: every entry exactly once, in the map's own
    /// iteration order, which this contract leaves open.
    #[verifier::external_body]
    pub(crate) fn entries(&self) -> (r: Vec<(u64, u64)>)
        ensures
            lists_entries(r@, client_map_contents(*self)),
    {
        self.map.iter().map(|(k, v)| (*k, *v)).collect()
    }
}

/// A set of client ids.
#[verifier::external_body]
pub struct ClientSet {
    set: bevy::utils::HashSet<u64>,
}

/// The client ids held by a set.
pub uninterp spec fn client_set_contents(set: ClientSet) -> Set<u64>;

impl View for ClientSet {
    type V = Set<u64>;

    open spec fn view(&self) -> Set<u64> {
        client_set_contents(*self)
    }
}

impl ClientSet {
    /// `HashSet::default`: a new set is empty.
    #[verifier::external_body]
    pub(crate) fn new() -> (r: ClientSet)
        ensures
            client_set_contents(r) == Set::<u64>::empty(),
    {
        ClientSet { set: bevy::utils::HashSet::default() }
    }

    /// `HashSet::insert`: adds `c`; true when it was not there before.
    #[verifier::external_body]
    pub(crate) fn insert(&mut self, c: u64) -> (r: bool)
        ensures
            client_set_contents(*final(self)) == client_set_contents(*old(self)).insert(c),
            r == !client_set_contents(*old(self)).contains(c),
    {
        self.set.insert(c)
    }

    /// `HashSet::remove`: takes `c` out; true when it was there.
    #[verifier::external_body]
    pub(crate) fn remove(&mut self, c: u64) -> (r: bool)
        ensures
            client_set_contents(*final(self)) == client_set_contents(*old(self)).remove(c),
            r == client_set_contents(*old(self)).contains(c),
    {
        self.set.remove(&c)
    }

    /// `HashSet::contains`: whether `c` is in the set.
    #[verifier::external_body]
    pub(crate) fn contains(&self, c: u64) -> (r: bool)
        ensures
            r == client_set_contents(*self).contains(c),
    {
        self.set.contains(&c)
    }
}

} // verus!
