//! The phases of a tick that deal with terrain: saving, taking generated
//! chunks in, dropping chunks that nobody sees, and telling the clients of
//! what changed.

use crate::client::{notified_where, select_entity, ClientView};
use crate::collections::{lists_set, BlockPos, ChunkKey};
use crate::comp::EntityView;
use crate::event::{events_view, push_event, Event, EventView, GeneratedChunk};
use crate::interest::{chunk_in_vd, in_view};
use crate::msg::{ServerMsg, ServerMsgView};
use crate::server::{Server, ServerView};
use crate::spawn::{npcs_spawned, NpcRolls};
use crate::state::{ChangesView, StateView};
use crate::terrain::{chunk_of, pos_key, Block, Chunk, ChunkView};
use crate::world::NpcInfo;
use vstd::prelude::*;

verus! {

/// Whether the chunk `key` is in view of the player behind an entity: the
/// entity has a position and a player with a view distance, and the chunk
/// is in view from the chunk of the entity.
pub open spec fn wants(entity: EntityView, key: ChunkKey) -> bool {
    entity.player is Some && entity.player->0.view_distance is Some && entity.pos is Some
        && in_view(chunk_of(entity.pos->0), key, entity.player->0.view_distance->0)
}

/// Whether the chunk `key` is in view of some player.
pub open spec fn wanted(entities: Seq<EntityView>, key: ChunkKey) -> bool {
    exists|j: int| 0 <= j < entities.len() && wants(#[trigger] entities[j], key)
}

/// The sessions after the chunk `key` was sent to the owners of those of the
/// first `n` entities in whose view it is.
pub open spec fn chunk_told(
    clients: Seq<ClientView>,
    entities: Seq<EntityView>,
    key: ChunkKey,
    chunk: ChunkView,
    n: int,
) -> Seq<ClientView>
    decreases n,
{
    if n <= 0 {
        clients
    } else {
        let before = chunk_told(clients, entities, key, chunk, n - 1);
        if wants(entities[n - 1], key) {
            notified_where(
                before,
                select_entity(before, entities[n - 1].uid),
                ServerMsgView::TerrainChunkUpdate { key, chunk },
            )
        } else {
            before
        }
    }
}

/// The server after the chunks that block edits touched were handed to the
/// save buffer, each as it is now. A chunk that waits in the buffer under
/// the same key is replaced.
pub open spec fn marked_for_saving(server: ServerView) -> ServerView {
    ServerView {
        buffer: server.buffer.union_prefer_right(
            server.state.terrain.restrict(server.state.dirtied),
        ),
        state: StateView { dirtied: Set::empty(), ..server.state },
        ..server
    }
}

/// The server and the events after a generated chunk came back. If its key
/// waits for a worker, the chunk is sent to the players in whose view it
/// is, put into the terrain, and its key waits no more; then the creatures
/// that come with it are spawned. If its key does not wait, the chunk is
/// dropped.
pub open spec fn generated_consumed(
    server: ServerView,
    events: Seq<EventView>,
    key: ChunkKey,
    chunk: ChunkView,
    npcs: Seq<NpcInfo>,
    rolls: Seq<NpcRolls>,
) -> (ServerView, Seq<EventView>) {
    if server.pending.contains(key) {
        let placed = ServerView {
            clients: chunk_told(
                server.clients,
                server.state.entities,
                key,
                chunk,
                server.state.entities.len() as int,
            ),
            state: server.state.with_chunk(key, chunk),
            pending: server.pending.remove(key),
            ..server
        };
        npcs_spawned(placed, events, npcs, rolls, npcs.len() as int)
    } else {
        (server, events)
    }
}

/// The state after the chunks that are in nobody's view were dropped.
pub open spec fn evicted(state: StateView) -> StateView {
    StateView {
        terrain: state.terrain.restrict(Set::new(|k: ChunkKey| wanted(state.entities, k))),
        changes: ChangesView {
            removed_chunks: state.changes.removed_chunks.union(
                Set::new(|k: ChunkKey| state.terrain.contains_key(k) && !wanted(state.entities, k)),
            ),
            ..state.changes
        },
        ..state
    }
}

impl Server {
    /// Whether the chunk `key` is in view of the player behind the entity at
    /// the place `j`.
    fn entity_wants(&self, j: usize, key: ChunkKey) -> (r: bool)
        requires
            j < self.state.entities.len(),
        ensures
            r == wants(self@.state.entities[j as int], key),
    {
        let entity = &self.state.entities[j];
        match (&entity.player, &entity.pos) {
            (Some(player), Some(pos)) => match player.view_distance {
                Some(vd) => chunk_in_vd(*pos, key, vd),
                None => false,
            },
            _ => false,
        }
    }

    /// Whether the chunk `key` is in view of some player.
    pub fn is_wanted(&self, key: ChunkKey) -> (r: bool)
        ensures
            r == wanted(self@.state.entities, key),
    {
        let mut j: usize = 0;
        while j < self.state.entities.len()
            invariant
                j <= self.state.entities.len(),
                forall|k: int| 0 <= k < j ==> !wants(#[trigger] self@.state.entities[k], key),
            decreases self.state.entities.len() - j,
        {
            if self.entity_wants(j, key) {
                return true;
            }
            j = j + 1;
        }
        false
    }

    /// Sends a chunk to the players in whose view it is.
    pub fn tell_chunk(&mut self, key: ChunkKey, chunk: &Chunk)
        ensures
            final(self)@ == (ServerView {
                clients: chunk_told(
                    old(self)@.clients,
                    old(self)@.state.entities,
                    key,
                    chunk@,
                    old(self)@.state.entities.len() as int,
                ),
                ..old(self)@
            }),
            final(self).state.entities.len() == old(self).state.entities.len(),
            old(self)@.wf() ==> final(self)@.wf(),
            final(self)@.world == old(self)@.world,
    {
        let n = self.state.entities.len();
        let mut j: usize = 0;
        while j < n
            invariant
                old(self)@.wf() ==> self@.wf(),
                self@.world == old(self)@.world,
                j <= n,
                n == self.state.entities.len(),
                n == old(self).state.entities.len(),
                self@ == (ServerView {
                    clients: chunk_told(
                        old(self)@.clients,
                        old(self)@.state.entities,
                        key,
                        chunk@,
                        j as int,
                    ),
                    ..old(self)@
                }),
            decreases n - j,
        {
            if self.entity_wants(j, key) {
                let uid = self.state.entities[j].uid;
                self.clients.notify(uid, ServerMsg::TerrainChunkUpdate { key, chunk: chunk.cloned() });
            }
            j = j + 1;
        }
    }

    /// Hands the chunks that block edits touched to the save buffer.
    pub fn mark_for_saving(&mut self)
        ensures
            final(self)@ == marked_for_saving(old(self)@),
            old(self)@.wf() ==> final(self)@.wf(),
            final(self)@.world == old(self)@.world,
    {
        let keys = self.state.dirtied_chunks.keys();
        let ghost start = old(self)@;
        let ghost mut done: Set<ChunkKey> = Set::empty();
        assert(self@.buffer =~= start.buffer.union_prefer_right(start.state.terrain.restrict(done)));
        let mut i: usize = 0;
        while i < keys.len()
            invariant
                i <= keys.len(),
                start == old(self)@,
                lists_set(keys@, start.state.dirtied),
                forall|j: int| 0 <= j < i ==> done.contains(#[trigger] keys[j]),
                forall|k: ChunkKey| #[trigger] done.contains(k) ==> start.state.dirtied.contains(k),
                self@ == (ServerView {
                    buffer: start.buffer.union_prefer_right(start.state.terrain.restrict(done)),
                    ..start
                }),
            decreases keys.len() - i,
        {
            let key = keys[i];
            let copy = match self.state.terrain.get_key(key) {
                Some(chunk) => Some(chunk.cloned()),
                None => None,
            };
            match copy {
                Some(chunk) => {
                    self.world_provider.set_chunk(key, chunk);
                },
                None => {},
            }
            proof {
                done = done.insert(key);
                assert(start.state.dirtied.contains(keys@[i as int]));
                assert(self@.buffer =~= start.buffer.union_prefer_right(
                    start.state.terrain.restrict(done),
                ));
            }
            i = i + 1;
        }
        proof {
            assert forall|k: ChunkKey| start.state.dirtied.contains(k) implies done.contains(k) by {
                let j = choose|j: int| 0 <= j < keys@.len() && #[trigger] keys@[j] == k;
                assert(done.contains(keys@[j]));
            }
            assert(done =~= start.state.dirtied);
        }
        self.state.dirtied_chunks.clear();
    }

    /// Drops the chunks that are in nobody's view.
    pub fn evict_chunks(&mut self)
        ensures
            final(self)@ == (ServerView { state: evicted(old(self)@.state), ..old(self)@ }),
            old(self)@.wf() ==> final(self)@.wf(),
            final(self)@.world == old(self)@.world,
    {
        let keys = self.state.terrain.keys();
        let ghost start = old(self)@;
        let ghost mut done: Set<ChunkKey> = Set::empty();
        proof {
            assert(self@.state.terrain =~= start.state.terrain.remove_keys(
                Set::new(|k: ChunkKey| done.contains(k) && !wanted(start.state.entities, k)),
            ));
            assert(self@.state.changes.removed_chunks =~= start.state.changes.removed_chunks.union(
                Set::new(
                    |k: ChunkKey|
                        done.contains(k) && start.state.terrain.contains_key(k) && !wanted(
                            start.state.entities,
                            k,
                        ),
                ),
            ));
        }
        let mut i: usize = 0;
        while i < keys.len()
            invariant
                i <= keys.len(),
                start == old(self)@,
                lists_set(keys@, start.state.terrain.dom()),
                forall|j: int| 0 <= j < i ==> done.contains(#[trigger] keys[j]),
                forall|k: ChunkKey| #[trigger] done.contains(k) ==> start.state.terrain.contains_key(k),
                self@ == (ServerView {
                    state: StateView {
                        terrain: start.state.terrain.remove_keys(
                            Set::new(
                                |k: ChunkKey| done.contains(k) && !wanted(start.state.entities, k),
                            ),
                        ),
                        changes: ChangesView {
                            removed_chunks: start.state.changes.removed_chunks.union(
                                Set::new(
                                    |k: ChunkKey|
                                        done.contains(k) && start.state.terrain.contains_key(k)
                                            && !wanted(start.state.entities, k),
                                ),
                            ),
                            ..start.state.changes
                        },
                        ..start.state
                    },
                    ..start
                }),
            decreases keys.len() - i,
        {
            let key = keys[i];
            assert(start.state.terrain.contains_key(keys@[i as int]));
            if !self.is_wanted(key) {
                self.state.remove_chunk(key);
            }
            proof {
                done = done.insert(key);
                assert(self@.state.terrain =~= start.state.terrain.remove_keys(
                    Set::new(|k: ChunkKey| done.contains(k) && !wanted(start.state.entities, k)),
                ));
                assert(self@.state.changes.removed_chunks
                    =~= start.state.changes.removed_chunks.union(
                    Set::new(
                        |k: ChunkKey|
                            done.contains(k) && start.state.terrain.contains_key(k) && !wanted(
                                start.state.entities,
                                k,
                            ),
                    ),
                ));
            }
            i = i + 1;
        }
        proof {
            assert forall|k: ChunkKey| start.state.terrain.contains_key(k) implies done.contains(
                k,
            ) by {
                let j = choose|j: int| 0 <= j < keys@.len() && #[trigger] keys@[j] == k;
                assert(done.contains(keys@[j]));
            }
            assert(self@.state.terrain =~= evicted(start.state).terrain);
            assert(self@.state.changes.removed_chunks =~= evicted(
                start.state,
            ).changes.removed_chunks);
        }
    }

    /// Takes a generated chunk in, and gives what chance decided of the
    /// creatures that came with it.
    pub(crate) fn consume_generated(&mut self, events: &mut Vec<Event>, generated: GeneratedChunk) -> (rolls:
        Ghost<Seq<NpcRolls>>)
        requires
            old(self)@.state.next_uid + generated.supplement.npcs.len() <= u64::MAX,
        ensures
            rolls@.len() == generated.supplement.npcs.len(),
            (final(self)@, events_view(final(events)@)) == generated_consumed(
                old(self)@,
                events_view(old(events)@),
                generated.key,
                generated.chunk@,
                generated.supplement.npcs@,
                rolls@,
            ),
            old(self)@.wf() ==> final(self)@.wf(),
            final(self)@.world == old(self)@.world,
    {
        let GeneratedChunk { key, chunk, supplement } = generated;
        if self.pending_chunks.contains(key) {
            self.tell_chunk(key, &chunk);
            self.state.insert_chunk(key, chunk);
            self.pending_chunks.remove(key);
            self.spawn_npcs(events, &supplement.npcs)
        } else {
            Ghost(Seq::new(supplement.npcs@.len(), |k: int| NpcRolls { humanoid: false, boss_humanoid: false, health: 0 }))
        }
    }
}

/// The sessions after the first `n` of a list of changed chunks were sent,
/// each to the players in whose view it is. A key without a loaded chunk is
/// passed over.
pub open spec fn changed_told(server: ServerView, keys: Seq<ChunkKey>, n: int) -> Seq<ClientView>
    decreases n,
{
    if n <= 0 {
        server.clients
    } else {
        let before = changed_told(server, keys, n - 1);
        let key = keys[n - 1];
        if server.state.terrain.contains_key(key) {
            chunk_told(
                before,
                server.state.entities,
                key,
                server.state.terrain[key],
                server.state.entities.len() as int,
            )
        } else {
            before
        }
    }
}

/// Whether a player with a view distance stands behind an entity.
pub open spec fn has_view(entity: EntityView) -> bool {
    entity.player is Some && entity.player->0.view_distance is Some
}

/// The sessions after the block edits of the tick were sent, as one
/// message, to the owners of those of the first `n` entities behind which
/// a player with a view distance stands.
pub open spec fn blocks_told(
    clients: Seq<ClientView>,
    entities: Seq<EntityView>,
    blocks: Map<BlockPos, Block>,
    n: int,
) -> Seq<ClientView>
    decreases n,
{
    if n <= 0 {
        clients
    } else {
        let before = blocks_told(clients, entities, blocks, n - 1);
        if has_view(entities[n - 1]) {
            notified_where(
                before,
                select_entity(before, entities[n - 1].uid),
                ServerMsgView::TerrainBlockUpdates(blocks),
            )
        } else {
            before
        }
    }
}

/// Whether an entity is steered by the server and stands where no terrain
/// is loaded.
pub open spec fn is_stray(entity: EntityView, terrain: Map<ChunkKey, ChunkView>) -> bool {
    entity.agent && entity.pos is Some && !terrain.contains_key(chunk_of(entity.pos->0))
}

/// The uids of the strays among the first `n` entities, in order.
pub open spec fn stray_uids(
    entities: Seq<EntityView>,
    terrain: Map<ChunkKey, ChunkView>,
    n: int,
) -> Seq<u64>
    decreases n,
{
    if n <= 0 {
        Seq::empty()
    } else if is_stray(entities[n - 1], terrain) {
        stray_uids(entities, terrain, n - 1).push(entities[n - 1].uid)
    } else {
        stray_uids(entities, terrain, n - 1)
    }
}

/// The state and the events after the first `n` of a list of entities were
/// removed.
pub open spec fn entities_removed(
    state: StateView,
    events: Seq<EventView>,
    uids: Seq<u64>,
    n: int,
) -> (StateView, Seq<EventView>)
    decreases n,
{
    if n <= 0 {
        (state, events)
    } else {
        let (s, e) = entities_removed(state, events, uids, n - 1);
        (s.without_entity(uids[n - 1]), e.push(EventView::EntityDeleted { entity: uids[n - 1] }))
    }
}

/// The state after the marks of one tick were taken off: no entity is dying
/// or about to respawn, and the record of terrain changes is empty.
pub open spec fn markers_cleared(state: StateView) -> StateView {
    StateView {
        entities: state.entities.map_values(
            |e: EntityView| EntityView { dying: None, respawning: false, ..e },
        ),
        changes: ChangesView::empty(),
        ..state
    }
}

impl Server {
    /// Sends the chunks with the keys, each to the players in whose view it
    /// is.
    pub fn sync_changed_chunks(&mut self, keys: &Vec<ChunkKey>)
        ensures
            final(self)@ == (ServerView {
                clients: changed_told(old(self)@, keys@, keys@.len() as int),
                ..old(self)@
            }),
            old(self)@.wf() ==> final(self)@.wf(),
            final(self)@.world == old(self)@.world,
    {
        let mut k: usize = 0;
        while k < keys.len()
            invariant
                old(self)@.wf() ==> self@.wf(),
                self@.world == old(self)@.world,
                k <= keys.len(),
                self@ == (ServerView { clients: changed_told(old(self)@, keys@, k as int), ..old(self)@ }),
            decreases keys.len() - k,
        {
            let key = keys[k];
            let copy = match self.state.terrain.get_key(key) {
                Some(chunk) => Some(chunk.cloned()),
                None => None,
            };
            match copy {
                Some(chunk) => {
                    self.tell_chunk(key, &chunk);
                },
                None => {},
            }
            k = k + 1;
        }
    }

    /// Sends the block edits of the tick, as one message, to every player
    /// with a view distance.
    pub fn sync_blocks(&mut self)
        ensures
            final(self)@ == (ServerView {
                clients: blocks_told(
                    old(self)@.clients,
                    old(self)@.state.entities,
                    old(self)@.state.changes.modified_blocks,
                    old(self)@.state.entities.len() as int,
                ),
                ..old(self)@
            }),
            old(self)@.wf() ==> final(self)@.wf(),
            final(self)@.world == old(self)@.world,
    {
        let msg = ServerMsg::TerrainBlockUpdates(self.state.terrain_changes.modified_blocks.cloned());
        let n = self.state.entities.len();
        let mut j: usize = 0;
        while j < n
            invariant
                old(self)@.wf() ==> self@.wf(),
                self@.world == old(self)@.world,
                j <= n,
                n == self.state.entities.len(),
                msg@ == ServerMsgView::TerrainBlockUpdates(old(self)@.state.changes.modified_blocks),
                self@ == (ServerView {
                    clients: blocks_told(
                        old(self)@.clients,
                        old(self)@.state.entities,
                        old(self)@.state.changes.modified_blocks,
                        j as int,
                    ),
                    ..old(self)@
                }),
            decreases n - j,
        {
            let told = match &self.state.entities[j].player {
                Some(player) => player.view_distance.is_some(),
                None => false,
            };
            if told {
                let uid = self.state.entities[j].uid;
                self.clients.notify(uid, msg.cloned());
            }
            j = j + 1;
        }
    }

    /// The uids of the entities that the server steers and that stand where
    /// no terrain is loaded, in order.
    fn uids_stray(&self) -> (uids: Vec<u64>)
        ensures
            uids@ == stray_uids(
                self@.state.entities,
                self@.state.terrain,
                self@.state.entities.len() as int,
            ),
    {
        let mut uids: Vec<u64> = Vec::new();
        let mut j: usize = 0;
        while j < self.state.entities.len()
            invariant
                j <= self.state.entities.len(),
                uids@ == stray_uids(self@.state.entities, self@.state.terrain, j as int),
            decreases self.state.entities.len() - j,
        {
            let entity = &self.state.entities[j];
            let stray = match entity.pos {
                Some(pos) => entity.agent && !self.state.terrain.contains_key(pos_key(pos)),
                None => false,
            };
            if stray {
                uids.push(entity.uid);
            }
            j = j + 1;
        }
        uids
    }

    /// Removes the entities with the uids and tells the host of each.
    fn remove_entities(&mut self, events: &mut Vec<Event>, uids: &Vec<u64>)
        ensures
            final(self)@ == (ServerView {
                state: entities_removed(
                    old(self)@.state,
                    events_view(old(events)@),
                    uids@,
                    uids@.len() as int,
                ).0,
                ..old(self)@
            }),
            events_view(final(events)@) == entities_removed(
                old(self)@.state,
                events_view(old(events)@),
                uids@,
                uids@.len() as int,
            ).1,
            old(self)@.wf() ==> final(self)@.wf(),
            final(self)@.world == old(self)@.world,
    {
        let mut k: usize = 0;
        while k < uids.len()
            invariant
                old(self)@.wf() ==> self@.wf(),
                self@.world == old(self)@.world,
                k <= uids.len(),
                self@ == (ServerView {
                    state: entities_removed(
                        old(self)@.state,
                        events_view(old(events)@),
                        uids@,
                        k as int,
                    ).0,
                    ..old(self)@
                }),
                events_view(events@) == entities_removed(
                    old(self)@.state,
                    events_view(old(events)@),
                    uids@,
                    k as int,
                ).1,
            decreases uids.len() - k,
        {
            let uid = uids[k];
            self.state.delete_entity(uid);
            push_event(events, Event::EntityDeleted { entity: uid });
            k = k + 1;
        }
    }

    /// Removes the entities that the server steers and that stand where no
    /// terrain is loaded.
    pub fn remove_strays(&mut self, events: &mut Vec<Event>)
        ensures
            (final(self)@.state, events_view(final(events)@)) == entities_removed(
                old(self)@.state,
                events_view(old(events)@),
                stray_uids(
                    old(self)@.state.entities,
                    old(self)@.state.terrain,
                    old(self)@.state.entities.len() as int,
                ),
                stray_uids(
                    old(self)@.state.entities,
                    old(self)@.state.terrain,
                    old(self)@.state.entities.len() as int,
                ).len() as int,
            ),
            final(self)@ == (ServerView { state: final(self)@.state, ..old(self)@ }),
            old(self)@.wf() ==> final(self)@.wf(),
            final(self)@.world == old(self)@.world,
    {
        let uids = self.uids_stray();
        self.remove_entities(events, &uids);
    }

    /// Takes the marks of one tick off: no entity is dying or about to
    /// respawn any more, and the record of terrain changes is empty.
    pub fn clear_markers(&mut self)
        ensures
            final(self)@ == (ServerView { state: markers_cleared(old(self)@.state), ..old(self)@ }),
            old(self)@.wf() ==> final(self)@.wf(),
            final(self)@.world == old(self)@.world,
    {
        let n = self.state.entities.len();
        let mut j: usize = 0;
        while j < n
            invariant
                j <= n,
                n == self.state.entities.len(),
                n == old(self).state.entities.len(),
                forall|k: int|
                    0 <= k < j ==> (#[trigger] self.state.entities[k])@ == markers_cleared(
                        old(self)@.state,
                    ).entities[k],
                forall|k: int|
                    j <= k < n ==> #[trigger] self.state.entities[k] == old(self).state.entities[k],
                self.state.next_uid == old(self).state.next_uid,
                self.state.terrain == old(self).state.terrain,
                self.state.block_change == old(self).state.block_change,
                self.state.terrain_changes == old(self).state.terrain_changes,
                self.state.dirtied_chunks == old(self).state.dirtied_chunks,
                self.state.time == old(self).state.time,
                self.state.time_of_day == old(self).state.time_of_day,
                self.state.delta_time == old(self).state.delta_time,
                self.world_provider == old(self).world_provider,
                self.clients == old(self).clients,
                self.pending_chunks == old(self).pending_chunks,
                self.server_settings == old(self).server_settings,
                self.server_info == old(self).server_info,
                self.accounts == old(self).accounts,
                self.spawn_point == old(self).spawn_point,
                self.closed == old(self).closed,
            decreases n - j,
        {
            let entity = &mut self.state.entities[j];
            entity.dying = None;
            entity.respawning = false;
            j = j + 1;
        }
        assert(self@.state.entities =~= markers_cleared(old(self)@.state).entities);
        self.state.cleanup();
    }
}

} // verus!
