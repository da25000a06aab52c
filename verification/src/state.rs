//! The game state that the server owns: the entities, the loaded terrain
//! with its record of changes, and the clock.

use crate::collections::{lists_map, lists_set, BlockMap, BlockPos, ChunkKey, KeySet};
use crate::comp::{entities_view, Entity, EntityView};
use crate::terrain::{
    chunk_of, local_pos, pos_key, with_block, Block, Chunk, ChunkView, TerrainMap, CHUNK_SIZE,
};
use vstd::prelude::*;

verus! {

/// How much faster a day in the game passes than a day of the clock.
pub const DAY_CYCLE_FACTOR: u64 = 48;

/// The longest step, in milliseconds, that the simulation takes at once.
pub const MAX_DELTA_TIME: u64 = 1000;

/// The block edits that wait for the next tick. A later edit of a position
/// replaces an earlier one.
#[derive(Debug, PartialEq, Eq)]
pub struct BlockChange {
    pub blocks: BlockMap,
}

impl BlockChange {
    /// No edits.
    pub fn new() -> (change: BlockChange)
        ensures
            change.blocks@ == Map::<BlockPos, Block>::empty(),
    {
        BlockChange { blocks: BlockMap::new() }
    }

    /// Records an edit; an earlier edit of the same position is replaced.
    pub fn set(&mut self, pos: BlockPos, block: Block)
        ensures
            final(self).blocks@ == old(self).blocks@.insert(pos, block),
    {
        self.blocks.insert(pos, block);
    }

    /// Forgets all edits.
    pub fn clear(&mut self)
        ensures
            final(self).blocks@ == Map::<BlockPos, Block>::empty(),
    {
        self.blocks = BlockMap::new();
    }
}

/// What changed in the terrain since the record was last cleared.
#[derive(Debug, PartialEq, Eq)]
pub struct TerrainChanges {
    pub new_chunks: KeySet,
    pub modified_chunks: KeySet,
    pub removed_chunks: KeySet,
    pub modified_blocks: BlockMap,
}

/// [`TerrainChanges`] as a mathematical value.
pub struct ChangesView {
    pub new_chunks: Set<ChunkKey>,
    pub modified_chunks: Set<ChunkKey>,
    pub removed_chunks: Set<ChunkKey>,
    pub modified_blocks: Map<BlockPos, Block>,
}

impl ChangesView {
    /// The record that holds nothing.
    pub open spec fn empty() -> ChangesView {
        ChangesView {
            new_chunks: Set::empty(),
            modified_chunks: Set::empty(),
            removed_chunks: Set::empty(),
            modified_blocks: Map::empty(),
        }
    }
}

impl View for TerrainChanges {
    type V = ChangesView;

    open spec fn view(&self) -> ChangesView {
        ChangesView {
            new_chunks: self.new_chunks@,
            modified_chunks: self.modified_chunks@,
            removed_chunks: self.removed_chunks@,
            modified_blocks: self.modified_blocks@,
        }
    }
}

impl TerrainChanges {
    /// An empty record.
    pub fn new() -> (changes: TerrainChanges)
        ensures
            changes@ == ChangesView::empty(),
    {
        TerrainChanges {
            new_chunks: KeySet::new(),
            modified_chunks: KeySet::new(),
            removed_chunks: KeySet::new(),
            modified_blocks: BlockMap::new(),
        }
    }

    /// Empties the record.
    pub fn clear(&mut self)
        ensures
            final(self)@ == ChangesView::empty(),
    {
        self.new_chunks.clear();
        self.modified_chunks.clear();
        self.removed_chunks.clear();
        self.modified_blocks = BlockMap::new();
    }
}

/// The world position of the place `lpos` in the chunk `key`.
pub open spec fn world_pos(key: ChunkKey, lpos: BlockPos) -> BlockPos {
    ((key.0 * CHUNK_SIZE + lpos.0) as i32, (key.1 * CHUNK_SIZE + lpos.1) as i32, lpos.2)
}

/// The edit among `edits` that lands on the place `lpos` of the chunk
/// `key`, if there is one.
pub open spec fn edit_at(edits: Map<BlockPos, Block>, key: ChunkKey, lpos: BlockPos) -> Option<
    Block,
> {
    let pos = world_pos(key, lpos);
    if edits.contains_key(pos) && chunk_of(pos) == key && local_pos(pos) == lpos {
        Some(edits[pos])
    } else {
        None
    }
}

/// The chunk `key` after the edits that land on it.
pub open spec fn edited_chunk(
    chunk: ChunkView,
    key: ChunkKey,
    edits: Map<BlockPos, Block>,
) -> ChunkView {
    ChunkView {
        blocks: Map::new(
            |lpos: BlockPos| chunk.blocks.contains_key(lpos) || edit_at(edits, key, lpos) is Some,
            |lpos: BlockPos|
                match edit_at(edits, key, lpos) {
                    Some(block) => block,
                    None => chunk.blocks[lpos],
                },
        ),
        ..chunk
    }
}

/// The terrain after a set of block edits: every loaded chunk takes the
/// edits that land on it; edits of chunks that are not loaded are lost.
pub open spec fn edited(terrain: Map<ChunkKey, ChunkView>, edits: Map<BlockPos, Block>) -> Map<
    ChunkKey,
    ChunkView,
> {
    Map::new(
        |key: ChunkKey| terrain.contains_key(key),
        |key: ChunkKey| edited_chunk(terrain[key], key, edits),
    )
}

/// The keys of the loaded chunks on which some edit lands.
pub open spec fn touched(terrain: Map<ChunkKey, ChunkView>, edits: Map<BlockPos, Block>) -> Set<
    ChunkKey,
> {
    Set::new(
        |key: ChunkKey|
            terrain.contains_key(key) && exists|pos: BlockPos|
                #[trigger] edits.contains_key(pos) && chunk_of(pos) == key,
    )
}

/// One more edit on top of a set of edits is one more block set.
proof fn lemma_edited_step(
    terrain: Map<ChunkKey, ChunkView>,
    edits: Map<BlockPos, Block>,
    pos: BlockPos,
    block: Block,
)
    ensures
        with_block(edited(terrain, edits), pos, block) == edited(terrain, edits.insert(pos, block)),
        touched(terrain, edits.insert(pos, block)) == if terrain.contains_key(chunk_of(pos)) {
            touched(terrain, edits).insert(chunk_of(pos))
        } else {
            touched(terrain, edits)
        },
{
    let more = edits.insert(pos, block);
    let key = chunk_of(pos);
    assert(world_pos(key, local_pos(pos)) == pos);
    assert forall|k: ChunkKey| terrain.contains_key(k) implies #[trigger] with_block(
        edited(terrain, edits),
        pos,
        block,
    )[k] == edited(terrain, more)[k] by {
        let a = with_block(edited(terrain, edits), pos, block)[k];
        let b = edited(terrain, more)[k];
        assert(a.blocks =~= b.blocks);
    }
    assert(with_block(edited(terrain, edits), pos, block) =~= edited(terrain, more));
    assert(more.contains_key(pos));
    assert forall|k: ChunkKey| touched(terrain, more).contains(k) implies (if terrain.contains_key(
        key,
    ) {
        touched(terrain, edits).insert(key)
    } else {
        touched(terrain, edits)
    }).contains(k) by {
        let p = choose|p: BlockPos| #[trigger] more.contains_key(p) && chunk_of(p) == k;
        if p != pos {
            assert(edits.contains_key(p));
        }
    }
    assert forall|k: ChunkKey| touched(terrain, edits).contains(k) implies touched(
        terrain,
        more,
    ).contains(k) by {
        let p = choose|p: BlockPos| #[trigger] edits.contains_key(p) && chunk_of(p) == k;
        assert(more.contains_key(p));
    }
    assert(touched(terrain, more) =~= if terrain.contains_key(key) {
        touched(terrain, edits).insert(key)
    } else {
        touched(terrain, edits)
    });
}

/// No edits leave the terrain as it is.
proof fn lemma_edited_none(terrain: Map<ChunkKey, ChunkView>)
    ensures
        edited(terrain, Map::empty()) == terrain,
        touched(terrain, Map::empty()) == Set::<ChunkKey>::empty(),
{
    assert forall|k: ChunkKey| terrain.contains_key(k) implies #[trigger] edited(
        terrain,
        Map::empty(),
    )[k] == terrain[k] by {
        assert(edited(terrain, Map::empty())[k].blocks =~= terrain[k].blocks);
    }
    assert(edited(terrain, Map::empty()) =~= terrain);
    assert(touched(terrain, Map::<BlockPos, Block>::empty()) =~= Set::<ChunkKey>::empty());
}

/// After a set of edits, a block position holds the block of its edit if it
/// has one, and else what it held before.
pub proof fn lemma_edited_block_at(
    terrain: Map<ChunkKey, ChunkView>,
    edits: Map<BlockPos, Block>,
    pos: BlockPos,
)
    ensures
        crate::terrain::block_at(edited(terrain, edits), pos) == if !terrain.contains_key(
            chunk_of(pos),
        ) {
            None
        } else if edits.contains_key(pos) {
            Some(edits[pos])
        } else {
            crate::terrain::block_at(terrain, pos)
        },
{
    let key = chunk_of(pos);
    assert(world_pos(key, local_pos(pos)) == pos);
}

/// The place of the first entity with the uid, or the number of entities if
/// there is none.
pub open spec fn entity_index(entities: Seq<EntityView>, uid: u64) -> int
    decreases entities.len(),
{
    if entities.len() == 0 {
        0
    } else if entities[0].uid == uid {
        0
    } else {
        1 + entity_index(entities.drop_first(), uid)
    }
}

/// The first entity with the uid, if there is one.
pub open spec fn entity_of(entities: Seq<EntityView>, uid: u64) -> Option<EntityView> {
    let i = entity_index(entities, uid);
    if i < entities.len() {
        Some(entities[i])
    } else {
        None
    }
}

/// The place that [`entity_index`] gives is within bounds or one past them,
/// the entity there has the uid, and none before it has.
pub proof fn lemma_entity_index(entities: Seq<EntityView>, uid: u64)
    ensures
        0 <= entity_index(entities, uid) <= entities.len(),
        entity_index(entities, uid) < entities.len() ==> entities[entity_index(
            entities,
            uid,
        )].uid == uid,
        forall|j: int| 0 <= j < entity_index(entities, uid) ==> (#[trigger] entities[j]).uid != uid,
    decreases entities.len(),
{
    if entities.len() > 0 && entities[0].uid != uid {
        lemma_entity_index(entities.drop_first(), uid);
        assert forall|j: int| 0 <= j < entity_index(entities, uid) implies (
        #[trigger] entities[j]).uid != uid by {
            if j > 0 {
                assert(entities.drop_first()[j - 1] == entities[j]);
            }
        }
    }
}

/// The game state.
#[derive(Debug, PartialEq, Eq)]
pub struct State {
    /// The entities, in the order in which they were made.
    pub entities: Vec<Entity>,
    /// The uid that the next entity gets.
    pub next_uid: u64,
    pub terrain: TerrainMap,
    pub block_change: BlockChange,
    pub terrain_changes: TerrainChanges,
    /// The chunks that block edits touched and that were not handed to the
    /// save buffer yet.
    pub dirtied_chunks: KeySet,
    /// The time since the start, in milliseconds.
    pub time: u64,
    /// The time of the day in the game, in milliseconds.
    pub time_of_day: u64,
    /// The length of the last step of the simulation, in milliseconds.
    pub delta_time: u64,
}

/// A [`State`] as a mathematical value.
pub struct StateView {
    pub entities: Seq<EntityView>,
    pub next_uid: u64,
    pub terrain: Map<ChunkKey, ChunkView>,
    pub block_change: Map<BlockPos, Block>,
    pub changes: ChangesView,
    pub dirtied: Set<ChunkKey>,
    pub time: u64,
    pub time_of_day: u64,
    pub delta_time: u64,
}

/// The sum of two times, held at the largest value that fits.
pub open spec fn saturating(a: int, b: int) -> u64 {
    if a + b > u64::MAX {
        u64::MAX
    } else {
        (a + b) as u64
    }
}

/// Whether the uids of the entities rise with their places and stay below
/// `next_uid`: no two entities share a uid, and the next uid is fresh.
pub open spec fn uids_rise(entities: Seq<EntityView>, next_uid: u64) -> bool {
    &&& forall|i: int, j: int|
        0 <= i < j < entities.len() ==> (#[trigger] entities[i]).uid < (#[trigger] entities[j]).uid
    &&& forall|i: int| 0 <= i < entities.len() ==> (#[trigger] entities[i]).uid < next_uid
}

/// Entities that keep their places and uids keep rising uids.
pub proof fn lemma_same_uids_rise(
    before: Seq<EntityView>,
    after: Seq<EntityView>,
    next_uid: u64,
    later_uid: u64,
)
    requires
        uids_rise(before, next_uid),
        next_uid <= later_uid,
        after.len() == before.len(),
        forall|i: int| 0 <= i < before.len() ==> (#[trigger] after[i]).uid == before[i].uid,
    ensures
        uids_rise(after, later_uid),
{
    assert forall|i: int, j: int| 0 <= i < j < after.len() implies (#[trigger] after[i]).uid < (
    #[trigger] after[j]).uid by {
        assert(before[i].uid < before[j].uid);
    }
    assert forall|i: int| 0 <= i < after.len() implies (#[trigger] after[i]).uid < later_uid by {
        assert(before[i].uid < next_uid);
    }
}

/// Entities with rising uids keep them when one is taken out.
pub proof fn lemma_removal_keeps_uids_rising(entities: Seq<EntityView>, next_uid: u64, at: int)
    requires
        uids_rise(entities, next_uid),
        0 <= at < entities.len(),
    ensures
        uids_rise(entities.remove(at), next_uid),
{
    let after = entities.remove(at);
    assert forall|i: int, j: int| 0 <= i < j < after.len() implies (#[trigger] after[i]).uid < (
    #[trigger] after[j]).uid by {
        let a = if i < at {
            i
        } else {
            i + 1
        };
        let b = if j < at {
            j
        } else {
            j + 1
        };
        assert(entities[a].uid < entities[b].uid);
    }
    assert forall|i: int| 0 <= i < after.len() implies (#[trigger] after[i]).uid < next_uid by {
        let a = if i < at {
            i
        } else {
            i + 1
        };
        assert(entities[a].uid < next_uid);
    }
}

/// Entities with rising uids keep them when one with the next uid is put
/// behind them.
pub proof fn lemma_push_keeps_uids_rising(entities: Seq<EntityView>, next_uid: u64, entity: EntityView)
    requires
        uids_rise(entities, next_uid),
        entity.uid == next_uid,
        next_uid < u64::MAX,
    ensures
        uids_rise(entities.push(entity), (next_uid + 1) as u64),
{
    let after = entities.push(entity);
    assert forall|i: int, j: int| 0 <= i < j < after.len() implies (#[trigger] after[i]).uid < (
    #[trigger] after[j]).uid by {
        if j < entities.len() {
            assert(entities[i].uid < entities[j].uid);
        } else {
            assert(entities[i].uid < next_uid);
        }
    }
}

/// Among entities with rising uids, an entity is the first with its uid.
pub proof fn lemma_rising_uids_are_found(entities: Seq<EntityView>, next_uid: u64, at: int)
    requires
        uids_rise(entities, next_uid),
        0 <= at < entities.len(),
    ensures
        entity_index(entities, entities[at].uid) == at,
    decreases entities.len(),
{
    if at > 0 {
        assert(entities[0].uid < entities[at].uid);
        let rest = entities.drop_first();
        assert forall|i: int, j: int| 0 <= i < j < rest.len() implies (#[trigger] rest[i]).uid < (
        #[trigger] rest[j]).uid by {
            assert(entities[i + 1].uid < entities[j + 1].uid);
        }
        assert forall|i: int| 0 <= i < rest.len() implies (#[trigger] rest[i]).uid < next_uid by {
            assert(entities[i + 1].uid < next_uid);
        }
        lemma_rising_uids_are_found(rest, next_uid, at - 1);
    }
}

impl StateView {
    /// Whether the state is well-formed: the uids of its entities rise with
    /// their places and stay below the next uid.
    pub open spec fn wf(self) -> bool {
        uids_rise(self.entities, self.next_uid)
    }

    /// The state without entities and terrain, at time zero.
    pub open spec fn initial() -> StateView {
        StateView {
            entities: Seq::empty(),
            next_uid: 0,
            terrain: Map::empty(),
            block_change: Map::empty(),
            changes: ChangesView::empty(),
            dirtied: Set::empty(),
            time: 0,
            time_of_day: 0,
            delta_time: 0,
        }
    }

    /// The state with one more block edit that waits for the next tick; an
    /// edit of the same position that waited is replaced.
    pub open spec fn with_edit(self, pos: BlockPos, block: Block) -> StateView {
        StateView { block_change: self.block_change.insert(pos, block), ..self }
    }

    /// The state after a chunk was put under a key: the key counts as new if
    /// no chunk was there, and as modified if one was.
    pub open spec fn with_chunk(self, key: ChunkKey, chunk: ChunkView) -> StateView {
        StateView {
            terrain: self.terrain.insert(key, chunk),
            changes: if self.terrain.contains_key(key) {
                ChangesView {
                    modified_chunks: self.changes.modified_chunks.insert(key),
                    ..self.changes
                }
            } else {
                ChangesView { new_chunks: self.changes.new_chunks.insert(key), ..self.changes }
            },
            ..self
        }
    }

    /// The state after the chunk under a key was dropped: the key counts as
    /// removed if a chunk was there.
    pub open spec fn without_chunk(self, key: ChunkKey) -> StateView {
        StateView {
            terrain: self.terrain.remove(key),
            changes: if self.terrain.contains_key(key) {
                ChangesView {
                    removed_chunks: self.changes.removed_chunks.insert(key),
                    ..self.changes
                }
            } else {
                self.changes
            },
            ..self
        }
    }

    /// The state after every chunk was dropped: the terrain is empty, and
    /// the key of every chunk that was loaded counts as removed.
    pub open spec fn cleared(self) -> StateView {
        StateView {
            terrain: Map::empty(),
            changes: ChangesView {
                removed_chunks: self.changes.removed_chunks.union(self.terrain.dom()),
                ..self.changes
            },
            ..self
        }
    }

    /// The state after a tick of `dt` milliseconds: the clock moved on, the
    /// waiting block edits are in the terrain and in the record of changes,
    /// and the chunks they touched are marked for saving.
    pub open spec fn ticked(self, dt: u64) -> StateView {
        StateView {
            time: saturating(self.time as int, dt as int),
            time_of_day: saturating(self.time_of_day as int, dt * DAY_CYCLE_FACTOR),
            delta_time: if dt < MAX_DELTA_TIME {
                dt
            } else {
                MAX_DELTA_TIME
            },
            terrain: edited(self.terrain, self.block_change),
            dirtied: self.dirtied.union(touched(self.terrain, self.block_change)),
            changes: ChangesView { modified_blocks: self.block_change, ..self.changes },
            block_change: Map::empty(),
            ..self
        }
    }

    /// The state with one more entity, which has nothing but the next uid.
    pub open spec fn with_new_entity(self) -> StateView {
        StateView {
            entities: self.entities.push(EntityView::bare(self.next_uid)),
            next_uid: (self.next_uid + 1) as u64,
            ..self
        }
    }

    /// The state without the first entity that has the uid.
    pub open spec fn without_entity(self, uid: u64) -> StateView {
        let i = entity_index(self.entities, uid);
        if i < self.entities.len() {
            StateView { entities: self.entities.remove(i), ..self }
        } else {
            self
        }
    }
}

impl View for State {
    type V = StateView;

    open spec fn view(&self) -> StateView {
        StateView {
            entities: entities_view(self.entities@),
            next_uid: self.next_uid,
            terrain: self.terrain@,
            block_change: self.block_change.blocks@,
            changes: self.terrain_changes@,
            dirtied: self.dirtied_chunks@,
            time: self.time,
            time_of_day: self.time_of_day,
            delta_time: self.delta_time,
        }
    }
}

impl State {
    /// A state without entities and terrain, at time zero.
    pub fn new() -> (state: State)
        ensures
            state@ == StateView::initial(),
            state@.wf(),
    {
        let state = State {
            entities: Vec::new(),
            next_uid: 0,
            terrain: TerrainMap::new(),
            block_change: BlockChange::new(),
            terrain_changes: TerrainChanges::new(),
            dirtied_chunks: KeySet::new(),
            time: 0,
            time_of_day: 0,
            delta_time: 0,
        };
        assert(state@.entities =~= Seq::<EntityView>::empty());
        state
    }

    /// What changed in the terrain since the record was last cleared.
    pub fn terrain_changes(&self) -> (changes: &TerrainChanges)
        ensures
            changes == &self.terrain_changes,
    {
        &self.terrain_changes
    }

    /// The time of the day in the game, in milliseconds.
    pub fn get_time_of_day(&self) -> (t: u64)
        ensures
            t == self.time_of_day,
    {
        self.time_of_day
    }

    /// The time since the start, in milliseconds.
    pub fn get_time(&self) -> (t: u64)
        ensures
            t == self.time,
    {
        self.time
    }

    /// The length of the last step of the simulation, in milliseconds.
    pub fn get_delta_time(&self) -> (t: u64)
        ensures
            t == self.delta_time,
    {
        self.delta_time
    }

    /// The loaded terrain.
    pub fn terrain(&self) -> (terrain: &TerrainMap)
        ensures
            terrain == &self.terrain,
    {
        &self.terrain
    }

    /// The loaded terrain, to change it.
    pub fn terrain_mut(&mut self) -> (terrain: &mut TerrainMap)
        ensures
            *terrain == old(self).terrain,
            final(self).terrain == *final(terrain),
            final(self).entities == old(self).entities,
            final(self).next_uid == old(self).next_uid,
            final(self).block_change == old(self).block_change,
            final(self).terrain_changes == old(self).terrain_changes,
            final(self).dirtied_chunks == old(self).dirtied_chunks,
            final(self).time == old(self).time,
            final(self).time_of_day == old(self).time_of_day,
            final(self).delta_time == old(self).delta_time,
    {
        &mut self.terrain
    }

    /// Records a block edit for the next tick; an earlier edit of the same
    /// position that still waits is replaced.
    pub fn set_block(&mut self, pos: BlockPos, block: Block)
        ensures
            final(self)@ == old(self)@.with_edit(pos, block),
    {
        self.block_change.set(pos, block);
    }

    /// Drops every chunk of the terrain, and records the key of each as
    /// removed.
    pub fn clear_terrain(&mut self)
        ensures
            final(self)@ == old(self)@.cleared(),
    {
        let keys = self.terrain.keys();
        let _ = self.terrain.drain();
        let ghost start = old(self)@;
        let ghost mut done: Set<ChunkKey> = Set::empty();
        assert(self.terrain_changes.removed_chunks@ =~= start.changes.removed_chunks.union(done));
        let mut i: usize = 0;
        while i < keys.len()
            invariant
                i <= keys.len(),
                start == old(self)@,
                lists_set(keys@, start.terrain.dom()),
                forall|j: int| 0 <= j < i ==> done.contains(#[trigger] keys[j]),
                forall|k: ChunkKey| #[trigger] done.contains(k) ==> start.terrain.contains_key(k),
                self@ == (StateView {
                    terrain: Map::empty(),
                    changes: ChangesView {
                        removed_chunks: start.changes.removed_chunks.union(done),
                        ..start.changes
                    },
                    ..start
                }),
            decreases keys.len() - i,
        {
            let key = keys[i];
            assert(start.terrain.contains_key(keys@[i as int]));
            self.terrain_changes.removed_chunks.insert(key);
            proof {
                done = done.insert(key);
                assert(self.terrain_changes.removed_chunks@ =~= start.changes.removed_chunks.union(
                    done,
                ));
            }
            i = i + 1;
        }
        proof {
            assert forall|k: ChunkKey| start.terrain.contains_key(k) implies done.contains(k) by {
                let j = choose|j: int| 0 <= j < keys@.len() && #[trigger] keys@[j] == k;
                assert(done.contains(keys@[j]));
            }
            assert(done =~= start.terrain.dom());
        }
    }

    /// Puts a chunk into the terrain and records its key as new, or as
    /// modified if a chunk was under the key before.
    pub fn insert_chunk(&mut self, key: ChunkKey, chunk: Chunk)
        ensures
            final(self)@ == old(self)@.with_chunk(key, chunk@),
    {
        if self.terrain.insert(key, chunk).is_some() {
            self.terrain_changes.modified_chunks.insert(key);
        } else {
            self.terrain_changes.new_chunks.insert(key);
        }
    }

    /// Drops the chunk under the key, if there is one, and records the key
    /// as removed.
    pub fn remove_chunk(&mut self, key: ChunkKey)
        ensures
            final(self)@ == old(self)@.without_chunk(key),
    {
        if self.terrain.remove(key).is_some() {
            self.terrain_changes.removed_chunks.insert(key);
        }
    }

    /// Moves the clock on by `dt` milliseconds and applies the block edits
    /// that wait.
    pub fn tick(&mut self, dt: u64)
        ensures
            final(self)@ == old(self)@.ticked(dt),
    {
        let scaled: u64 = if dt > u64::MAX / DAY_CYCLE_FACTOR {
            u64::MAX
        } else {
            dt * DAY_CYCLE_FACTOR
        };
        self.time_of_day = self.time_of_day.saturating_add(scaled);
        self.time = self.time.saturating_add(dt);
        self.delta_time = if dt < MAX_DELTA_TIME {
            dt
        } else {
            MAX_DELTA_TIME
        };
        let entries = self.block_change.blocks.entries();
        let ghost start = old(self)@;
        let ghost mut done: Map<BlockPos, Block> = Map::empty();
        proof {
            lemma_edited_none(start.terrain);
            assert(self.dirtied_chunks@ =~= start.dirtied.union(touched(start.terrain, done)));
        }
        let mut i: usize = 0;
        while i < entries.len()
            invariant
                i <= entries.len(),
                lists_map(entries@, start.block_change),
                forall|j: int| 0 <= j < i ==> done.contains_key(#[trigger] entries[j].0),
                forall|p: BlockPos| #[trigger]
                    done.contains_key(p) ==> start.block_change.contains_key(p) && done[p]
                        == start.block_change[p],
                self.terrain@ == edited(start.terrain, done),
                self.dirtied_chunks@ == start.dirtied.union(touched(start.terrain, done)),
                self.block_change == old(self).block_change,
                self.terrain_changes == old(self).terrain_changes,
                self.entities == old(self).entities,
                self.next_uid == old(self).next_uid,
                self.time == saturating(start.time as int, dt as int),
                self.time_of_day == saturating(start.time_of_day as int, dt * DAY_CYCLE_FACTOR),
                self.delta_time == (if dt < MAX_DELTA_TIME {
                    dt
                } else {
                    MAX_DELTA_TIME
                }),
            decreases entries.len() - i,
        {
            let (pos, block) = entries[i];
            proof {
                assert(entries@[i as int] == (pos, block));
                assert(start.block_change.contains_key(entries@[i as int].0));
                assert(start.block_change[pos] == block);
                lemma_edited_step(start.terrain, done, pos, block);
                assert(edited(start.terrain, done).dom() =~= start.terrain.dom());
            }
            if self.terrain.set(pos, block) {
                self.dirtied_chunks.insert(pos_key(pos));
            }
            proof {
                done = done.insert(pos, block);
                assert(self.dirtied_chunks@ =~= start.dirtied.union(touched(start.terrain, done)));
            }
            i = i + 1;
        }
        assert forall|p: BlockPos| start.block_change.contains_key(p) implies done.contains_key(
            p,
        ) by {
            let j = choose|j: int| 0 <= j < entries@.len() && (#[trigger] entries@[j]).0 == p;
            assert(done.contains_key(entries@[j].0));
        }
        assert(done =~= start.block_change);
        let mut applied = BlockMap::new();
        std::mem::swap(&mut applied, &mut self.block_change.blocks);
        self.terrain_changes.modified_blocks = applied;
    }

    /// Empties the record of terrain changes.
    pub fn cleanup(&mut self)
        ensures
            final(self)@ == (StateView { changes: ChangesView::empty(), ..old(self)@ }),
    {
        self.terrain_changes.clear();
    }

    /// Makes an entity that has nothing but a fresh uid, and gives the uid.
    pub fn create_entity(&mut self) -> (uid: u64)
        requires
            old(self).next_uid < u64::MAX,
        ensures
            uid == old(self).next_uid,
            final(self)@ == old(self)@.with_new_entity(),
            old(self)@.wf() ==> final(self)@.wf(),
    {
        let uid = self.next_uid;
        self.entities.push(Entity::new(uid));
        self.next_uid = uid + 1;
        assert(self@.entities =~= old(self)@.entities.push(EntityView::bare(uid)));
        proof {
            if old(self)@.wf() {
                lemma_push_keeps_uids_rising(old(self)@.entities, uid, EntityView::bare(uid));
            }
        }
        uid
    }

    /// The place of the first entity with the uid.
    pub fn find_entity(&self, uid: u64) -> (found: Option<usize>)
        ensures
            match found {
                Some(i) => i == entity_index(self@.entities, uid) && i < self.entities.len(),
                None => entity_index(self@.entities, uid) == self.entities.len(),
            },
    {
        let mut i: usize = 0;
        assert(self@.entities.skip(0) =~= self@.entities);
        while i < self.entities.len()
            invariant
                i <= self.entities.len(),
                entity_index(self@.entities, uid) == i + entity_index(
                    self@.entities.skip(i as int),
                    uid,
                ),
            decreases self.entities.len() - i,
        {
            assert(self@.entities.skip(i as int)[0] == self@.entities[i as int]);
            if self.entities[i].uid == uid {
                return Some(i);
            }
            assert(self@.entities.skip(i as int).drop_first() =~= self@.entities.skip(i as int + 1));
            i = i + 1;
        }
        None
    }

    /// Removes the first entity with the uid, and tells whether there was
    /// one.
    pub fn delete_entity(&mut self, uid: u64) -> (found: bool)
        ensures
            final(self)@ == old(self)@.without_entity(uid),
            found == (entity_index(old(self)@.entities, uid) < old(self)@.entities.len()),
            old(self)@.wf() ==> final(self)@.wf(),
            final(self)@.next_uid == old(self)@.next_uid,
    {
        match self.find_entity(uid) {
            Some(i) => {
                self.entities.remove(i);
                assert(self@.entities =~= old(self)@.entities.remove(i as int));
                proof {
                    if old(self)@.wf() {
                        lemma_removal_keeps_uids_rising(
                            old(self)@.entities,
                            old(self)@.next_uid,
                            i as int,
                        );
                    }
                }
                true
            },
            None => false,
        }
    }
}

} // verus!
