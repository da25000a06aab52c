//! What the world generator hands to the server besides terrain.

use crate::collections::BlockPos;
use vstd::prelude::*;

verus! {

/// The kinds of forest that the generator grows.
#[derive(Clone, Copy, Debug, PartialEq, Eq, Structural)]
pub enum ForestKind {
    Palm,
    Savannah,
    Oak,
    Pine,
    SnowPine,
}

/// A creature to spawn with a chunk.
#[derive(Debug, PartialEq, Eq)]
pub struct NpcInfo {
    /// The block to spawn it in.
    pub pos: BlockPos,
    pub boss: bool,
}

/// What comes with a generated chunk besides its blocks.
#[derive(Debug, PartialEq, Eq)]
pub struct ChunkSupplement {
    pub npcs: Vec<NpcInfo>,
}

impl ChunkSupplement {
    /// A supplement with nothing to spawn.
    pub fn new() -> (supplement: ChunkSupplement)
        ensures
            supplement.npcs@ == Seq::<NpcInfo>::empty(),
    {
        ChunkSupplement { npcs: Vec::new() }
    }
}

} // verus!
