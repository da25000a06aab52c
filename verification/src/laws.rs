//! What holds of the server whatever it is handed, proved from the
//! definitions of the other modules.

use crate::client::ClientView;
use crate::collections::{BlockPos, ChunkKey};
use crate::comp::EntityView;
use crate::event::EventView;
use crate::messages::{
    blocks_set, checked, chunks_requested, client_handled, handled, handled_upto, kept,
    parted, request_of, timed_out, DeferredView,
};
use crate::msg::{ClientMsg, ServerMsgView};
use crate::protocol::{allowed, transition};
use crate::server::ServerView;
use crate::state::StateView;
use crate::terrain::{Block, ChunkView};
use crate::tick::{chunk_told, generated_consumed, wants};
use vstd::prelude::*;

verus! {

/// The number of times that a worker is asked for the chunk `key` in a list
/// of events.
pub open spec fn jobs_for(events: Seq<EventView>, key: ChunkKey) -> nat
    decreases events.len(),
{
    if events.len() == 0 {
        0
    } else {
        jobs_for(events.drop_last(), key) + if events.last() == (EventView::GenerateChunk { key }) {
            1nat
        } else {
            0nat
        }
    }
}

/// Whether `key` is among the first `n` of `keys`.
pub open spec fn asked_for(keys: Seq<ChunkKey>, n: int, key: ChunkKey) -> bool {
    exists|k: int| 0 <= k < n && #[trigger] keys[k] == key
}

/// However often a chunk is asked for, a worker is asked for it at most
/// once: once if it is asked for at all and does not wait for a worker
/// already, and not at all else. Every key that was asked for waits
/// afterwards, and every key that waited still does.
pub proof fn lemma_requests_are_deduplicated(
    pending: Set<ChunkKey>,
    events: Seq<EventView>,
    keys: Seq<ChunkKey>,
    n: int,
    key: ChunkKey,
)
    requires
        0 <= n <= keys.len(),
    ensures
        jobs_for(chunks_requested(pending, events, keys, n).1, key) == jobs_for(events, key) + (if
            !pending.contains(key) && asked_for(keys, n, key) {
            1nat
        } else {
            0nat
        }),
        chunks_requested(pending, events, keys, n).0.contains(key) <==> pending.contains(key)
            || asked_for(keys, n, key),
    decreases n,
{
    if n > 0 {
        lemma_requests_are_deduplicated(pending, events, keys, n - 1, key);
        let (p, e) = chunks_requested(pending, events, keys, n - 1);
        let last = keys[n - 1];
        if asked_for(keys, n - 1, key) {
            let k = choose|k: int| 0 <= k < n - 1 && #[trigger] keys[k] == key;
            assert(keys[k] == key);
        }
        if asked_for(keys, n, key) {
            let k = choose|k: int| 0 <= k < n && #[trigger] keys[k] == key;
            if k < n - 1 {
                assert(asked_for(keys, n - 1, key));
            }
        }
        if !p.contains(last) {
            let grown = e.push(EventView::GenerateChunk { key: last });
            assert(grown.drop_last() =~= e);
        }
    }
}

/// A chunk that came back is sent once to every session behind whose
/// entity a player stands in whose view it is, and to no other, as long as
/// no two entities share a uid.
pub proof fn lemma_chunk_is_sent_once(
    clients: Seq<ClientView>,
    entities: Seq<EntityView>,
    key: ChunkKey,
    chunk: ChunkView,
    n: int,
    i: int,
)
    requires
        0 <= n <= entities.len(),
        0 <= i < clients.len(),
        forall|a: int, b: int|
            0 <= a < b < entities.len() ==> (#[trigger] entities[a]).uid != (
            #[trigger] entities[b]).uid,
    ensures
        chunk_told(clients, entities, key, chunk, n).len() == clients.len(),
        chunk_told(clients, entities, key, chunk, n)[i] == (if exists|j: int|
            0 <= j < n && (#[trigger] entities[j]).uid == clients[i].entity && wants(
                entities[j],
                key,
            ) {
            clients[i].notified(ServerMsgView::TerrainChunkUpdate { key, chunk })
        } else {
            clients[i]
        }),
    decreases n,
{
    if n > 0 {
        lemma_chunk_is_sent_once(clients, entities, key, chunk, n - 1, i);
        let before = chunk_told(clients, entities, key, chunk, n - 1);
        let last = entities[n - 1];
        let earlier = exists|j: int|
            0 <= j < n - 1 && (#[trigger] entities[j]).uid == clients[i].entity && wants(
                entities[j],
                key,
            );
        if earlier {
            let j = choose|j: int|
                0 <= j < n - 1 && (#[trigger] entities[j]).uid == clients[i].entity && wants(
                    entities[j],
                    key,
                );
            assert(entities[j].uid != entities[n - 1].uid);
            assert(before[i].entity == clients[i].entity);
        } else {
            assert(before[i] == clients[i]);
            if last.uid == clients[i].entity && wants(last, key) {
            } else {
                assert forall|j: int|
                    0 <= j < n && (#[trigger] entities[j]).uid == clients[i].entity implies !wants(
                    entities[j],
                    key,
                ) by {
                    if j < n - 1 {
                    }
                }
            }
        }
    }
}

/// A generated chunk whose key does not wait for a worker changes nothing.
pub proof fn lemma_stale_chunk_is_dropped(
    server: ServerView,
    events: Seq<EventView>,
    key: ChunkKey,
    chunk: ChunkView,
    npcs: Seq<crate::world::NpcInfo>,
    rolls: Seq<crate::spawn::NpcRolls>,
)
    requires
        !server.pending.contains(key),
    ensures
        generated_consumed(server, events, key, chunk, npcs, rolls) == (server, events),
{
}

/// A message that the table of the state machine does not allow in the
/// state of its session gets a typed error for an answer, and that is all
/// it does: the session stays in its state and in the registry, and nothing
/// else of the server changes, neither the other sessions, nor the
/// entities, nor the accounts, nor what was put off.
pub proof fn lemma_disallowed_message_is_refused(
    server: ServerView,
    deferred: DeferredView,
    i: int,
    msg: ClientMsg,
)
    requires
        0 <= i < server.clients.len(),
        !allowed(server.clients[i].state, request_of(server, msg)),
    ensures
        transition(server.clients[i].state, request_of(server, msg)) is Refuse,
        handled(server, deferred, i, msg).server == server.with_client(
            i,
            server.clients[i].refused(
                transition(server.clients[i].state, request_of(server, msg))->Refuse_0,
            ),
        ),
        handled(server, deferred, i, msg).server.clients[i].state == server.clients[i].state,
        handled(server, deferred, i, msg).deferred == deferred,
        !handled(server, deferred, i, msg).disconnect,
{
    let state = server.clients[i].state;
    assert(checked(server, state, msg).clients == server.clients);
    assert(checked(server, state, msg).accounts == server.accounts);
    assert(checked(server, state, msg) == server);
}

/// A ping is answered with a pong wherever it stands in the messages of a
/// session, whatever became of the messages before it: the step of the
/// ping puts a pong into the mailbox of the session and does nothing else.
pub proof fn lemma_ping_in_batch_is_answered(
    server: ServerView,
    deferred: DeferredView,
    i: int,
    msgs: Seq<ClientMsg>,
    k: int,
)
    requires
        0 <= k < msgs.len(),
        msgs[k] is Ping,
    ensures
        handled_upto(server, deferred, i, msgs, k + 1).server == handled_upto(
            server,
            deferred,
            i,
            msgs,
            k,
        ).server.with_client(
            i,
            handled_upto(server, deferred, i, msgs, k).server.clients[i].notified(
                ServerMsgView::Pong,
            ),
        ),
        handled_upto(server, deferred, i, msgs, k + 1).deferred == handled_upto(
            server,
            deferred,
            i,
            msgs,
            k,
        ).deferred,
{
    let before = handled_upto(server, deferred, i, msgs, k);
    assert(checked(before.server, before.server.clients[i].state, msgs[k]) == before.server);
}

/// A disconnect tears the session down wherever it stands in the messages
/// of the session, whatever became of the messages before it.
pub proof fn lemma_disconnect_in_batch_tears_down(
    server: ServerView,
    deferred: DeferredView,
    i: int,
    msgs: Seq<ClientMsg>,
    k: int,
    n: int,
)
    requires
        0 <= k < n <= msgs.len(),
        msgs[k] is Disconnect,
    ensures
        handled_upto(server, deferred, i, msgs, n).disconnect,
    decreases n,
{
    if k < n - 1 {
        lemma_disconnect_in_batch_tears_down(server, deferred, i, msgs, k, n - 1);
    }
}

/// A session whose messages hold a disconnect is torn down at the end of
/// the look at it: it is marked, told so, and its entity is noted for
/// removal.
pub proof fn lemma_disconnect_ends_the_session(
    server: ServerView,
    deferred: DeferredView,
    i: int,
    k: int,
)
    requires
        0 <= i < server.clients.len(),
        0 <= k < server.clients[i].inbound.len(),
        server.clients[i].inbound[k] is Disconnect,
    ensures
        client_handled(server, deferred, i).2,
        client_handled(server, deferred, i).1.disconnected.len() > 0,
        client_handled(server, deferred, i).1.disconnected.last() == server.clients[i].entity,
{
    let client = server.clients[i];
    let heard = server.with_client(
        i,
        ClientView { inbound: Seq::empty(), last_ping: server.state.time, ..client },
    );
    lemma_disconnect_in_batch_tears_down(
        heard,
        deferred,
        i,
        client.inbound,
        k,
        client.inbound.len() as int,
    );
    lemma_batch_keeps_the_entity(heard, deferred, i, client.inbound, client.inbound.len() as int);
}

/// The messages of a session change neither the number of sessions nor the
/// entity that stands for the session.
pub proof fn lemma_batch_keeps_the_entity(
    server: ServerView,
    deferred: DeferredView,
    i: int,
    msgs: Seq<ClientMsg>,
    n: int,
)
    requires
        0 <= i < server.clients.len(),
        0 <= n <= msgs.len(),
    ensures
        handled_upto(server, deferred, i, msgs, n).server.clients.len() == server.clients.len(),
        handled_upto(server, deferred, i, msgs, n).server.clients[i].entity
            == server.clients[i].entity,
    decreases n,
{
    if n > 0 {
        lemma_batch_keeps_the_entity(server, deferred, i, msgs, n - 1);
        let before = handled_upto(server, deferred, i, msgs, n - 1);
        let state = before.server.clients[i].state;
        assert(checked(before.server, state, msgs[n - 1]).clients == before.server.clients);
    }
}

/// Of two edits of one block position that wait for the same tick, the
/// later stays: the record of the tick holds one entry for the position,
/// with the block of the later edit.
pub proof fn lemma_edits_coalesce(
    state: StateView,
    pos: BlockPos,
    first: Block,
    second: Block,
    dt: u64,
)
    ensures
        state.with_edit(pos, first).with_edit(pos, second) == state.with_edit(pos, second),
        state.with_edit(pos, first).with_edit(pos, second).ticked(
            dt,
        ).changes.modified_blocks.contains_key(pos),
        state.with_edit(pos, first).with_edit(pos, second).ticked(dt).changes.modified_blocks[pos]
            == second,
        state.with_edit(pos, first).with_edit(pos, second).ticked(dt).changes.modified_blocks.dom()
            == state.block_change.dom().insert(pos),
{
    assert(state.block_change.insert(pos, first).insert(pos, second) =~= state.block_change.insert(
        pos,
        second,
    ));
    assert(state.block_change.insert(pos, second).dom() =~= state.block_change.dom().insert(pos));
}

/// Among the block edits that clients asked for in one tick, the last edit
/// of a position is the one that waits for the tick.
pub proof fn lemma_last_edit_stays(
    waiting: Map<BlockPos, Block>,
    edits: Seq<(BlockPos, Block)>,
    n: int,
    k: int,
)
    requires
        0 <= k < n <= edits.len(),
        forall|j: int| k < j < n ==> (#[trigger] edits[j]).0 != edits[k].0,
    ensures
        blocks_set(waiting, edits, n).contains_key(edits[k].0),
        blocks_set(waiting, edits, n)[edits[k].0] == edits[k].1,
    decreases n,
{
    if k < n - 1 {
        lemma_last_edit_stays(waiting, edits, n - 1, k);
        assert(edits[n - 1].0 != edits[k].0);
    }
}

/// A session that sent nothing and has been silent for longer than the
/// timeout, or whose connection failed, is torn down: it is marked, told
/// so, and its entity is noted for removal.
pub proof fn lemma_silent_session_is_dropped(server: ServerView, deferred: DeferredView, i: int)
    requires
        0 <= i < server.clients.len(),
        server.clients[i].inbound.len() == 0,
        timed_out(server, server.clients[i]),
    ensures
        client_handled(server, deferred, i).2,
        client_handled(server, deferred, i).0.clients[i] == server.clients[i].notified(
            ServerMsgView::Disconnect,
        ),
        client_handled(server, deferred, i).1.disconnected == deferred.disconnected.push(
            server.clients[i].entity,
        ),
{
}

/// Every session either stays, or leaves its mailbox to the closed ones.
pub proof fn lemma_sessions_stay_or_part(clients: Seq<ClientView>, marks: Seq<bool>, n: int)
    requires
        0 <= n <= clients.len(),
        n <= marks.len(),
    ensures
        kept(clients, marks, n).len() + parted(clients, marks, n).len() == n,
        forall|j: int|
            0 <= j < n && marks[j] ==> exists|k: int|
                0 <= k < parted(clients, marks, n).len() && #[trigger] parted(clients, marks, n)[k]
                    == clients[j].mailbox(),
    decreases n,
{
    if n > 0 {
        lemma_sessions_stay_or_part(clients, marks, n - 1);
        let before = parted(clients, marks, n - 1);
        let now = parted(clients, marks, n);
        assert forall|j: int| 0 <= j < n && marks[j] implies exists|k: int|
            0 <= k < now.len() && #[trigger] now[k] == clients[j].mailbox() by {
            if j < n - 1 {
                let k = choose|k: int|
                    0 <= k < before.len() && #[trigger] before[k] == clients[j].mailbox();
                assert(now[k] == clients[j].mailbox());
            } else {
                assert(now[now.len() - 1] == clients[j].mailbox());
            }
        }
    }
}

/// The sessions that stay after a look at all of them are those that were
/// not marked, in their order: none that was marked stays.
pub proof fn lemma_marked_sessions_leave(clients: Seq<ClientView>, marks: Seq<bool>, n: int)
    requires
        0 <= n <= clients.len(),
        n <= marks.len(),
    ensures
        kept(clients, marks, n).len() <= n,
        forall|k: int|
            0 <= k < kept(clients, marks, n).len() ==> exists|j: int|
                0 <= j < n && !marks[j] && clients[j] == #[trigger] kept(clients, marks, n)[k],
        (forall|j: int| 0 <= j < n ==> marks[j]) ==> kept(clients, marks, n).len() == 0,
    decreases n,
{
    if n > 0 {
        lemma_marked_sessions_leave(clients, marks, n - 1);
        let before = kept(clients, marks, n - 1);
        assert forall|k: int| 0 <= k < kept(clients, marks, n).len() implies exists|j: int|
            0 <= j < n && !marks[j] && clients[j] == #[trigger] kept(clients, marks, n)[k] by {
            if k < before.len() {
                let j = choose|j: int| 0 <= j < n - 1 && !marks[j] && clients[j] == before[k];
                assert(0 <= j < n && !marks[j] && clients[j] == kept(clients, marks, n)[k]);
            } else {
                assert(!marks[n - 1] && clients[n - 1] == kept(clients, marks, n)[k]);
            }
        }
    }
}

} // verus!
