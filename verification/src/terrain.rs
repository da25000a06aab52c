//! Blocks, chunks and the map of loaded chunks.

use crate::collections::{lists_map, lists_set, BlockMap, BlockPos, ChunkKey, ChunkMap};
use vstd::prelude::*;

verus! {

/// The edge length of a chunk along x and y, in blocks.
pub const CHUNK_SIZE: i32 = 32;

/// One voxel: a kind and a colour. Kind 0 is empty space.
#[derive(Clone, Copy, Debug, PartialEq, Eq, Structural)]
pub struct Block {
    pub kind: u8,
    pub r: u8,
    pub g: u8,
    pub b: u8,
}

impl Block {
    pub fn new(kind: u8, r: u8, g: u8, b: u8) -> (block: Block)
        ensures
            block == (Block { kind, r, g, b }),
    {
        Block { kind, r, g, b }
    }

    /// The block that stands for empty space.
    pub open spec fn spec_empty() -> Block {
        Block { kind: 0, r: 0, g: 0, b: 0 }
    }

    #[verifier::when_used_as_spec(spec_empty)]
    pub fn empty() -> (block: Block)
        ensures
            block == Block::spec_empty(),
    {
        Block { kind: 0, r: 0, g: 0, b: 0 }
    }

    pub fn is_empty(&self) -> (r: bool)
        ensures
            r == (self.kind == 0),
    {
        self.kind == 0
    }
}

/// The biome of a chunk.
#[derive(Clone, Copy, Debug, PartialEq, Eq, Structural)]
pub enum BiomeKind {
    Void,
    Grassland,
    Ocean,
    Mountain,
    Snowlands,
    Desert,
    Swamp,
    Forest,
}

/// What is known of a chunk besides its blocks.
#[derive(Clone, Debug, PartialEq, Eq)]
pub struct ChunkMeta {
    pub name: Option<String>,
    pub biome: BiomeKind,
}

/// The name of a chunk as a sequence of characters.
pub open spec fn name_view(name: Option<String>) -> Option<Seq<char>> {
    match name {
        Some(s) => Some(s@),
        None => None,
    }
}

impl ChunkMeta {
    pub fn new(name: Option<String>, biome: BiomeKind) -> (meta: ChunkMeta)
        ensures
            meta.name == name,
            meta.biome == biome,
    {
        ChunkMeta { name, biome }
    }

    /// The metadata of a chunk outside the generated world.
    pub fn void() -> (meta: ChunkMeta)
        ensures
            meta.name.is_none(),
            meta.biome == BiomeKind::Void,
    {
        ChunkMeta { name: None, biome: BiomeKind::Void }
    }

    /// A copy with the same name and biome.
    pub fn cloned(&self) -> (meta: ChunkMeta)
        ensures
            name_view(meta.name) == name_view(self.name),
            meta.biome == self.biome,
    {
        let name = match &self.name {
            Some(s) => Some(s.clone()),
            None => None,
        };
        ChunkMeta { name, biome: self.biome }
    }
}

/// One chunk of terrain: a column of blocks over a 32 by 32 base, given by
/// a filling below and above a base height and by the blocks set one by one.
#[derive(Debug, PartialEq, Eq)]
pub struct Chunk {
    pub base_z: i32,
    pub below: Block,
    pub above: Block,
    pub meta: ChunkMeta,
    pub blocks: BlockMap,
}

/// A chunk as a mathematical value.
pub struct ChunkView {
    pub base_z: i32,
    pub below: Block,
    pub above: Block,
    pub name: Option<Seq<char>>,
    pub biome: BiomeKind,
    pub blocks: Map<BlockPos, Block>,
}

impl ChunkView {
    /// The block at a position inside the chunk: the one set there, else
    /// the filling of its side of the base height.
    pub open spec fn block_at(self, lpos: BlockPos) -> Block {
        if self.blocks.contains_key(lpos) {
            self.blocks[lpos]
        } else if lpos.2 < self.base_z {
            self.below
        } else {
            self.above
        }
    }

    /// The same chunk with one block set.
    pub open spec fn with_block(self, lpos: BlockPos, block: Block) -> ChunkView {
        ChunkView { blocks: self.blocks.insert(lpos, block), ..self }
    }
}

impl View for Chunk {
    type V = ChunkView;

    open spec fn view(&self) -> ChunkView {
        ChunkView {
            base_z: self.base_z,
            below: self.below,
            above: self.above,
            name: name_view(self.meta.name),
            biome: self.meta.biome,
            blocks: self.blocks@,
        }
    }
}

impl Chunk {
    /// A chunk filled with `below` under `base_z` and with `above` from
    /// there on.
    pub fn new(base_z: i32, below: Block, above: Block, meta: ChunkMeta) -> (chunk: Chunk)
        ensures
            chunk@ == (ChunkView {
                base_z,
                below,
                above,
                name: name_view(meta.name),
                biome: meta.biome,
                blocks: Map::empty(),
            }),
    {
        Chunk { base_z, below, above, meta, blocks: BlockMap::new() }
    }

    /// The block at a position inside the chunk.
    pub fn get(&self, lpos: BlockPos) -> (block: Block)
        ensures
            block == self@.block_at(lpos),
    {
        match self.blocks.get(lpos) {
            Some(block) => block,
            None => if lpos.2 < self.base_z {
                self.below
            } else {
                self.above
            },
        }
    }

    /// Sets the block at a position inside the chunk.
    pub fn set(&mut self, lpos: BlockPos, block: Block)
        ensures
            final(self)@ == old(self)@.with_block(lpos, block),
    {
        self.blocks.insert(lpos, block);
    }

    /// A copy of the chunk.
    pub fn cloned(&self) -> (chunk: Chunk)
        ensures
            chunk@ == self@,
    {
        Chunk {
            base_z: self.base_z,
            below: self.below,
            above: self.above,
            meta: self.meta.cloned(),
            blocks: self.blocks.cloned(),
        }
    }
}

/// The key of the chunk that holds a coordinate: the coordinate divided by
/// the chunk size, rounded down.
pub open spec fn chunk_coord(e: int) -> int {
    e / (CHUNK_SIZE as int)
}

/// Computes [`chunk_coord`].
pub fn chunk_coord_of(e: i32) -> (k: i32)
    ensures
        k == chunk_coord(e as int),
{
    if e >= 0 {
        e / CHUNK_SIZE
    } else {
        -((-(e + 1)) / CHUNK_SIZE) - 1
    }
}

/// The key of the chunk that holds a block position.
pub open spec fn chunk_of(pos: BlockPos) -> ChunkKey {
    (chunk_coord(pos.0 as int) as i32, chunk_coord(pos.1 as int) as i32)
}

/// The position of a block inside its chunk: x and y taken from the
/// chunk's corner, z unchanged.
pub open spec fn local_pos(pos: BlockPos) -> BlockPos {
    (
        (pos.0 - chunk_coord(pos.0 as int) * CHUNK_SIZE) as i32,
        (pos.1 - chunk_coord(pos.1 as int) * CHUNK_SIZE) as i32,
        pos.2,
    )
}

/// Computes [`chunk_of`].
pub fn pos_key(pos: BlockPos) -> (key: ChunkKey)
    ensures
        key == chunk_of(pos),
{
    (chunk_coord_of(pos.0), chunk_coord_of(pos.1))
}

/// Computes [`local_pos`].
pub fn key_offs(pos: BlockPos) -> (lpos: BlockPos)
    ensures
        lpos == local_pos(pos),
        0 <= lpos.0 < CHUNK_SIZE,
        0 <= lpos.1 < CHUNK_SIZE,
{
    let kx = chunk_coord_of(pos.0);
    let ky = chunk_coord_of(pos.1);
    (pos.0 - kx * CHUNK_SIZE, pos.1 - ky * CHUNK_SIZE, pos.2)
}

/// Two block positions with the same chunk and the same place in it are
/// the same position.
pub proof fn lemma_chunk_and_local_determine_pos(p: BlockPos, q: BlockPos)
    requires
        chunk_of(p) == chunk_of(q),
        local_pos(p) == local_pos(q),
    ensures
        p == q,
{
}

/// The chunks of a map as mathematical values.
pub open spec fn terrain_view(chunks: Map<ChunkKey, Chunk>) -> Map<ChunkKey, ChunkView> {
    chunks.map_values(|c: Chunk| c@)
}

/// The block at a world position, if its chunk is loaded.
pub open spec fn block_at(terrain: Map<ChunkKey, ChunkView>, pos: BlockPos) -> Option<Block> {
    if terrain.contains_key(chunk_of(pos)) {
        Some(terrain[chunk_of(pos)].block_at(local_pos(pos)))
    } else {
        None
    }
}

/// The terrain with the block at a world position set, if its chunk is
/// loaded; else the terrain as it is.
pub open spec fn with_block(
    terrain: Map<ChunkKey, ChunkView>,
    pos: BlockPos,
    block: Block,
) -> Map<ChunkKey, ChunkView> {
    if terrain.contains_key(chunk_of(pos)) {
        terrain.insert(chunk_of(pos), terrain[chunk_of(pos)].with_block(local_pos(pos), block))
    } else {
        terrain
    }
}

/// The loaded chunks, by key.
#[derive(Debug, PartialEq, Eq)]
pub struct TerrainMap {
    pub chunks: ChunkMap,
}

impl View for TerrainMap {
    type V = Map<ChunkKey, ChunkView>;

    open spec fn view(&self) -> Map<ChunkKey, ChunkView> {
        terrain_view(self.chunks@)
    }
}

impl TerrainMap {
    /// A map without chunks.
    pub fn new() -> (terrain: TerrainMap)
        ensures
            terrain@ == Map::<ChunkKey, ChunkView>::empty(),
    {
        let terrain = TerrainMap { chunks: ChunkMap::new() };
        assert(terrain@ =~= Map::<ChunkKey, ChunkView>::empty());
        terrain
    }

    /// The key of the chunk that holds a block position.
    pub fn pos_key(&self, pos: BlockPos) -> (key: ChunkKey)
        ensures
            key == chunk_of(pos),
    {
        pos_key(pos)
    }

    /// Whether the chunk with the key is loaded.
    pub fn contains_key(&self, key: ChunkKey) -> (r: bool)
        ensures
            r == self@.contains_key(key),
    {
        self.chunks.contains_key(key)
    }

    /// The chunk with the key, if it is loaded.
    pub fn get_key(&self, key: ChunkKey) -> (chunk: Option<&Chunk>)
        ensures
            match chunk {
                Some(c) => self@.contains_key(key) && c@ == self@[key],
                None => !self@.contains_key(key),
            },
    {
        self.chunks.get(key)
    }

    /// Puts a chunk under the key and hands back the one that was there.
    pub fn insert(&mut self, key: ChunkKey, chunk: Chunk) -> (previous: Option<Chunk>)
        ensures
            final(self)@ == old(self)@.insert(key, chunk@),
            match previous {
                Some(c) => old(self)@.contains_key(key) && c@ == old(self)@[key],
                None => !old(self)@.contains_key(key),
            },
    {
        let previous = self.chunks.insert(key, chunk);
        assert(self@ =~= old(self)@.insert(key, chunk@));
        previous
    }

    /// Takes the chunk with the key out of the map, if it is loaded.
    pub fn remove(&mut self, key: ChunkKey) -> (previous: Option<Chunk>)
        ensures
            final(self)@ == old(self)@.remove(key),
            match previous {
                Some(c) => old(self)@.contains_key(key) && c@ == old(self)@[key],
                None => !old(self)@.contains_key(key),
            },
    {
        let previous = self.chunks.remove(key);
        assert(self@ =~= old(self)@.remove(key));
        previous
    }

    /// The block at a world position, if its chunk is loaded.
    pub fn get(&self, pos: BlockPos) -> (block: Option<Block>)
        ensures
            block == block_at(self@, pos),
    {
        match self.chunks.get(pos_key(pos)) {
            Some(chunk) => Some(chunk.get(key_offs(pos))),
            None => None,
        }
    }

    /// Sets the block at a world position if its chunk is loaded, and tells
    /// whether it is.
    pub fn set(&mut self, pos: BlockPos, block: Block) -> (loaded: bool)
        ensures
            final(self)@ == with_block(old(self)@, pos, block),
            loaded == old(self)@.contains_key(chunk_of(pos)),
    {
        let key = pos_key(pos);
        match self.chunks.remove(key) {
            Some(chunk) => {
                let mut chunk = chunk;
                chunk.set(key_offs(pos), block);
                self.chunks.insert(key, chunk);
                assert(self@ =~= with_block(old(self)@, pos, block));
                true
            },
            None => {
                assert(self@ =~= old(self)@);
                false
            },
        }
    }

    /// The keys of the loaded chunks, each once, in no particular order.
    pub fn keys(&self) -> (keys: Vec<ChunkKey>)
        ensures
            lists_set(keys@, self@.dom()),
    {
        let keys = self.chunks.keys();
        assert(self@.dom() =~= self.chunks@.dom());
        keys
    }

    /// Takes every chunk out of the map, in no particular order.
    pub fn drain(&mut self) -> (entries: Vec<(ChunkKey, Chunk)>)
        ensures
            lists_map(entries@, old(self).chunks@),
            final(self)@ == Map::<ChunkKey, ChunkView>::empty(),
    {
        let entries = self.chunks.drain();
        assert(self@ =~= Map::<ChunkKey, ChunkView>::empty());
        entries
    }
}

} // verus!
