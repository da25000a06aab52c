//! Hash collections keyed by integer coordinates.
//!
//! The tables themselves are `hashbrown` tables. Each type here holds one
//! and names its contents as a mathematical set or map. The calls into
//! `hashbrown` are the private functions whose names begin with `table_`;
//! their contracts are stated over those contents and are taken on trust
//! from the `hashbrown` sources. Everything else is proved from them.

use crate::terrain::{Block, Chunk};
use vstd::prelude::*;

verus! {

/// A chunk key: the two signed coordinates of one terrain chunk.
pub type ChunkKey = (i32, i32);

/// A block position: three signed coordinates.
pub type BlockPos = (i32, i32, i32);

/// `keys` lists the set `s`: every member once, and nothing else.
pub open spec fn lists_set<K>(keys: Seq<K>, s: Set<K>) -> bool {
    &&& keys.no_duplicates()
    &&& forall|i: int| 0 <= i < keys.len() ==> s.contains(#[trigger] keys[i])
    &&& forall|k: K| s.contains(k) ==> exists|i: int| 0 <= i < keys.len() && #[trigger] keys[i] == k
}

/// `entries` lists the map `m`: every key once, with its value, and nothing
/// else.
pub open spec fn lists_map<K, V>(entries: Seq<(K, V)>, m: Map<K, V>) -> bool {
    &&& forall|i: int, j: int|
        0 <= i < j < entries.len() ==> (#[trigger] entries[i]).0 != (#[trigger] entries[j]).0
    &&& forall|i: int|
        0 <= i < entries.len() ==> m.contains_key((#[trigger] entries[i]).0) && m[entries[i].0]
            == entries[i].1
    &&& forall|k: K|
        m.contains_key(k) ==> exists|i: int| 0 <= i < entries.len() && (#[trigger] entries[i]).0 == k
}

/// A set of chunk keys, held in a `hashbrown::HashSet`.
#[derive(Debug, PartialEq, Eq)]
#[verifier::external_body]
pub struct KeySet {
    inner: hashbrown::HashSet<(i32, i32)>,
}

/// The keys that a [`KeySet`] holds.
pub uninterp spec fn key_set_contents(s: KeySet) -> Set<(i32, i32)>;

impl View for KeySet {
    type V = Set<(i32, i32)>;

    open spec fn view(&self) -> Set<(i32, i32)> {
        key_set_contents(*self)
    }
}

impl KeySet {
    /// `hashbrown::HashSet::new`: the new set holds no key.
    #[verifier::external_body]
    fn table_new() -> (s: KeySet)
        ensures
            key_set_contents(s) == Set::<(i32, i32)>::empty(),
    {
        KeySet { inner: hashbrown::HashSet::new() }
    }

    /// `hashbrown::HashSet::insert`: the key is in the set afterwards, nothing
    /// else changes, and the result tells whether the key was absent before.
    #[verifier::external_body]
    fn table_insert(&mut self, key: (i32, i32)) -> (fresh: bool)
        ensures
            key_set_contents(*final(self)) == key_set_contents(*old(self)).insert(key),
            fresh == !key_set_contents(*old(self)).contains(key),
    {
        self.inner.insert(key)
    }

    /// `hashbrown::HashSet::remove`: the key is gone afterwards, nothing else
    /// changes, and the result tells whether the key was present before.
    #[verifier::external_body]
    fn table_remove(&mut self, key: (i32, i32)) -> (present: bool)
        ensures
            key_set_contents(*final(self)) == key_set_contents(*old(self)).remove(key),
            present == key_set_contents(*old(self)).contains(key),
    {
        self.inner.remove(&key)
    }

    /// `hashbrown::HashSet::contains`: membership of the key.
    #[verifier::external_body]
    fn table_contains(&self, key: (i32, i32)) -> (present: bool)
        ensures
            present == key_set_contents(*self).contains(key),
    {
        self.inner.contains(&key)
    }

    /// `hashbrown::HashSet::iter`, collected: every key of the set once, in
    /// the order in which the table is walked, which is left open.
    #[verifier::external_body]
    fn table_keys(&self) -> (keys: Vec<(i32, i32)>)
        ensures
            lists_set(keys@, key_set_contents(*self)),
    {
        self.inner.iter().copied().collect()
    }

    /// A set without keys.
    pub fn new() -> (s: KeySet)
        ensures
            s@ == Set::<ChunkKey>::empty(),
    {
        KeySet::table_new()
    }

    /// Puts a key into the set and tells whether it was not in it before.
    pub fn insert(&mut self, key: ChunkKey) -> (fresh: bool)
        ensures
            final(self)@ == old(self)@.insert(key),
            fresh == !old(self)@.contains(key),
    {
        self.table_insert(key)
    }

    /// Takes a key out of the set and tells whether it was in it.
    pub fn remove(&mut self, key: ChunkKey) -> (present: bool)
        ensures
            final(self)@ == old(self)@.remove(key),
            present == old(self)@.contains(key),
    {
        self.table_remove(key)
    }

    /// Whether a key is in the set.
    pub fn contains(&self, key: ChunkKey) -> (present: bool)
        ensures
            present == self@.contains(key),
    {
        self.table_contains(key)
    }

    /// Takes every key out of the set.
    pub fn clear(&mut self)
        ensures
            final(self)@ == Set::<ChunkKey>::empty(),
    {
        *self = KeySet::table_new();
    }

    /// The keys of the set, each once, in no particular order.
    pub fn keys(&self) -> (keys: Vec<ChunkKey>)
        ensures
            lists_set(keys@, self@),
    {
        self.table_keys()
    }
}

/// A map from block positions to blocks, held in a `hashbrown::HashMap`.
#[derive(Debug, PartialEq, Eq)]
#[verifier::external_body]
pub struct BlockMap {
    inner: hashbrown::HashMap<(i32, i32, i32), Block>,
}

/// The entries that a [`BlockMap`] holds.
pub uninterp spec fn block_map_contents(m: BlockMap) -> Map<(i32, i32, i32), Block>;

impl View for BlockMap {
    type V = Map<(i32, i32, i32), Block>;

    open spec fn view(&self) -> Map<(i32, i32, i32), Block> {
        block_map_contents(*self)
    }
}

impl BlockMap {
    /// `hashbrown::HashMap::new`: the new map holds no entry.
    #[verifier::external_body]
    fn table_new() -> (m: BlockMap)
        ensures
            block_map_contents(m) == (Map::<BlockPos, Block>::empty()),
    {
        BlockMap { inner: hashbrown::HashMap::new() }
    }

    /// `hashbrown::HashMap::insert`: the position maps to the block
    /// afterwards, whatever it mapped to before, and nothing else changes.
    #[verifier::external_body]
    fn table_insert(&mut self, pos: (i32, i32, i32), block: Block)
        ensures
            block_map_contents(*final(self)) == block_map_contents(*old(self)).insert(pos, block),
    {
        self.inner.insert(pos, block);
    }

    /// `hashbrown::HashMap::get`: the block at the position, if the map has
    /// one.
    #[verifier::external_body]
    fn table_get(&self, pos: (i32, i32, i32)) -> (block: Option<Block>)
        ensures
            block == (if block_map_contents(*self).contains_key(pos) {
                Some(block_map_contents(*self)[pos])
            } else {
                None
            }),
    {
        self.inner.get(&pos).copied()
    }

    /// `hashbrown::HashMap::iter`, collected: every entry of the map once, in
    /// the order in which the table is walked, which is left open.
    #[verifier::external_body]
    fn table_entries(&self) -> (entries: Vec<((i32, i32, i32), Block)>)
        ensures
            lists_map(entries@, block_map_contents(*self)),
    {
        self.inner.iter().map(|(pos, block)| (*pos, *block)).collect()
    }

    /// `hashbrown::HashMap::clone`: a map with the same entries.
    #[verifier::external_body]
    fn table_clone(&self) -> (m: BlockMap)
        ensures
            block_map_contents(m) == block_map_contents(*self),
    {
        BlockMap { inner: self.inner.clone() }
    }

    /// A map without entries.
    pub fn new() -> (m: BlockMap)
        ensures
            m@ == Map::<BlockPos, Block>::empty(),
    {
        BlockMap::table_new()
    }

    /// Puts a block under a position; a block that was there is replaced.
    pub fn insert(&mut self, pos: BlockPos, block: Block)
        ensures
            final(self)@ == old(self)@.insert(pos, block),
    {
        self.table_insert(pos, block)
    }

    /// The block under a position, if there is one.
    pub fn get(&self, pos: BlockPos) -> (block: Option<Block>)
        ensures
            block == (if self@.contains_key(pos) {
                Some(self@[pos])
            } else {
                None
            }),
    {
        self.table_get(pos)
    }

    /// The entries of the map, each once, in no particular order.
    pub fn entries(&self) -> (entries: Vec<(BlockPos, Block)>)
        ensures
            lists_map(entries@, self@),
    {
        self.table_entries()
    }

    /// A copy of the map.
    pub fn cloned(&self) -> (m: BlockMap)
        ensures
            m@ == self@,
    {
        self.table_clone()
    }
}

/// A map from chunk keys to chunks, held in a `hashbrown::HashMap`.
#[derive(Debug, PartialEq, Eq)]
#[verifier::external_body]
pub struct ChunkMap {
    inner: hashbrown::HashMap<(i32, i32), Chunk>,
}

/// The entries that a [`ChunkMap`] holds.
pub uninterp spec fn chunk_map_contents(m: ChunkMap) -> Map<(i32, i32), Chunk>;

impl View for ChunkMap {
    type V = Map<(i32, i32), Chunk>;

    open spec fn view(&self) -> Map<(i32, i32), Chunk> {
        chunk_map_contents(*self)
    }
}

impl ChunkMap {
    /// `hashbrown::HashMap::new`: the new map holds no entry.
    #[verifier::external_body]
    fn table_new() -> (m: ChunkMap)
        ensures
            chunk_map_contents(m) == (Map::<ChunkKey, Chunk>::empty()),
    {
        ChunkMap { inner: hashbrown::HashMap::new() }
    }

    /// `hashbrown::HashMap::insert`: the key maps to the chunk afterwards,
    /// nothing else changes, and the chunk that the key mapped to before, if
    /// any, is handed back.
    #[verifier::external_body]
    fn table_insert(&mut self, key: (i32, i32), chunk: Chunk) -> (previous: Option<Chunk>)
        ensures
            chunk_map_contents(*final(self)) == chunk_map_contents(*old(self)).insert(key, chunk),
            previous == (if chunk_map_contents(*old(self)).contains_key(key) {
                Some(chunk_map_contents(*old(self))[key])
            } else {
                None
            }),
    {
        self.inner.insert(key, chunk)
    }

    /// `hashbrown::HashMap::remove`: the key maps to nothing afterwards,
    /// nothing else changes, and the chunk that it mapped to, if any, is
    /// handed back.
    #[verifier::external_body]
    fn table_remove(&mut self, key: (i32, i32)) -> (previous: Option<Chunk>)
        ensures
            chunk_map_contents(*final(self)) == chunk_map_contents(*old(self)).remove(key),
            previous == (if chunk_map_contents(*old(self)).contains_key(key) {
                Some(chunk_map_contents(*old(self))[key])
            } else {
                None
            }),
    {
        self.inner.remove(&key)
    }

    /// `hashbrown::HashMap::get`: the chunk that the key maps to, if any.
    #[verifier::external_body]
    fn table_get(&self, key: (i32, i32)) -> (chunk: Option<&Chunk>)
        ensures
            chunk == (if chunk_map_contents(*self).contains_key(key) {
                Some(&chunk_map_contents(*self)[key])
            } else {
                None
            }),
    {
        self.inner.get(&key)
    }

    /// `hashbrown::HashMap::keys`, collected: every key of the map once, in
    /// the order in which the table is walked, which is left open.
    #[verifier::external_body]
    fn table_keys(&self) -> (keys: Vec<(i32, i32)>)
        ensures
            lists_set(keys@, chunk_map_contents(*self).dom()),
    {
        self.inner.keys().copied().collect()
    }

    /// `hashbrown::HashMap::drain`, collected: every entry of the map once,
    /// in the order in which the table is walked, which is left open; the map
    /// holds no entry afterwards.
    #[verifier::external_body]
    fn table_drain(&mut self) -> (entries: Vec<((i32, i32), Chunk)>)
        ensures
            lists_map(entries@, chunk_map_contents(*old(self))),
            chunk_map_contents(*final(self)) == (Map::<ChunkKey, Chunk>::empty()),
    {
        self.inner.drain().collect()
    }

    /// A map without entries.
    pub fn new() -> (m: ChunkMap)
        ensures
            m@ == Map::<ChunkKey, Chunk>::empty(),
    {
        ChunkMap::table_new()
    }

    /// Puts a chunk under a key and hands back the one that was there.
    pub fn insert(&mut self, key: ChunkKey, chunk: Chunk) -> (previous: Option<Chunk>)
        ensures
            final(self)@ == old(self)@.insert(key, chunk),
            previous == (if old(self)@.contains_key(key) {
                Some(old(self)@[key])
            } else {
                None
            }),
    {
        self.table_insert(key, chunk)
    }

    /// Takes the chunk under a key out of the map, if there is one.
    pub fn remove(&mut self, key: ChunkKey) -> (previous: Option<Chunk>)
        ensures
            final(self)@ == old(self)@.remove(key),
            previous == (if old(self)@.contains_key(key) {
                Some(old(self)@[key])
            } else {
                None
            }),
    {
        self.table_remove(key)
    }

    /// The chunk under a key, if there is one.
    pub fn get(&self, key: ChunkKey) -> (chunk: Option<&Chunk>)
        ensures
            chunk == (if self@.contains_key(key) {
                Some(&self@[key])
            } else {
                None
            }),
    {
        self.table_get(key)
    }

    /// Whether a chunk is under a key.
    pub fn contains_key(&self, key: ChunkKey) -> (present: bool)
        ensures
            present == self@.contains_key(key),
    {
        self.table_get(key).is_some()
    }

    /// The keys of the map, each once, in no particular order.
    pub fn keys(&self) -> (keys: Vec<ChunkKey>)
        ensures
            lists_set(keys@, self@.dom()),
    {
        self.table_keys()
    }

    /// Takes every entry out of the map, in no particular order.
    pub fn drain(&mut self) -> (entries: Vec<(ChunkKey, Chunk)>)
        ensures
            lists_map(entries@, old(self)@),
            final(self)@ == Map::<ChunkKey, Chunk>::empty(),
    {
        self.table_drain()
    }
}

} // verus!
