//! What the messages of the clients do to the server, as mathematics.
//!
//! Every session is looked at once per tick, in the order of the registry.
//! What a message asks of the state machine is judged by
//! [`transition`](crate::protocol::transition); the rest of this module says
//! what carrying the judgement out means.

use crate::auth_provider::{query_accepts, query_accounts};
use crate::client::{notified_where, select_registered, ClientView, PostBoxView};
use crate::collections::{BlockPos, ChunkKey};
use crate::comp::{alias_is_valid, Body, EntityView, PlayerView, StatsView, Synced};
use crate::event::EventView;
use crate::msg::{chat_view, ChatType, ClientMsg, ClientState, ServerMsgView};
use crate::protocol::{transition, Outcome, Request};
use crate::server::ServerView;
use crate::state::{entity_index, entity_of, StateView};
use crate::stats::{Energy, Exp, Health, Level};
use crate::terrain::Block;
use vstd::prelude::*;

verus! {

/// A chat line that waits to be passed on: who wrote it, if a client did,
/// and the line.
pub struct ChatLineView {
    pub entity: Option<u64>,
    pub chat_type: ChatType,
    pub message: Seq<char>,
}

/// What the handling of messages puts off until every session was looked
/// at.
pub struct DeferredView {
    pub chats: Seq<ChatLineView>,
    pub disconnected: Seq<u64>,
    pub requested_chunks: Seq<ChunkKey>,
    pub modified_blocks: Seq<(BlockPos, Block)>,
    pub events: Seq<EventView>,
}

impl DeferredView {
    /// Nothing put off.
    pub open spec fn empty() -> DeferredView {
        DeferredView {
            chats: Seq::empty(),
            disconnected: Seq::empty(),
            requested_chunks: Seq::empty(),
            modified_blocks: Seq::empty(),
            events: Seq::empty(),
        }
    }

    pub open spec fn with_chat(self, line: ChatLineView) -> DeferredView {
        DeferredView { chats: self.chats.push(line), ..self }
    }

    pub open spec fn with_event(self, event: EventView) -> DeferredView {
        DeferredView { events: self.events.push(event), ..self }
    }

    pub open spec fn with_request(self, key: ChunkKey) -> DeferredView {
        DeferredView { requested_chunks: self.requested_chunks.push(key), ..self }
    }

    pub open spec fn with_edit(self, pos: BlockPos, block: Block) -> DeferredView {
        DeferredView { modified_blocks: self.modified_blocks.push((pos, block)), ..self }
    }

    pub open spec fn with_disconnect(self, entity: u64) -> DeferredView {
        DeferredView { disconnected: self.disconnected.push(entity), ..self }
    }
}

/// The server and what was put off, after one message or several, and
/// whether the session is to be torn down.
pub struct Handled {
    pub server: ServerView,
    pub deferred: DeferredView,
    pub disconnect: bool,
}

/// The line that tells everybody of a player who entered the world.
pub open spec fn online_text(alias: Seq<char>) -> Seq<char> {
    "["@ + alias + "] is now online."@
}

/// The line that tells everybody of a player whose session ended.
pub open spec fn offline_text(alias: Seq<char>) -> Seq<char> {
    alias + " went offline."@
}

/// What a message asks of the state machine.
pub open spec fn request_of(server: ServerView, msg: ClientMsg) -> Request {
    match msg {
        ClientMsg::RequestState(state) => Request::RequestState(state),
        ClientMsg::Register { player, password } => Request::Register {
            valid: alias_is_valid(player.alias@),
            accepted: query_accepts(server.accounts, player.alias@, password@),
        },
        ClientMsg::Character { .. } => Request::EnterCharacter,
        ClientMsg::Controller => Request::Controller,
        ClientMsg::ChatMsg { .. } => Request::Chat,
        ClientMsg::PlayerPhysics { .. } => Request::Physics,
        ClientMsg::TerrainChunkRequest { .. } => Request::ChunkRequest,
        ClientMsg::SetViewDistance(_) => Request::SetViewDistance,
        ClientMsg::SwapInventorySlots(_, _) => Request::Inventory,
        ClientMsg::DropInventorySlot(_) => Request::Inventory,
        ClientMsg::PickUp(_) => Request::Inventory,
        ClientMsg::BreakBlock(_) => Request::BlockEdit,
        ClientMsg::PlaceBlock(_, _) => Request::BlockEdit,
        ClientMsg::Ping => Request::Ping,
        ClientMsg::Pong => Request::Pong,
        ClientMsg::Disconnect => Request::Disconnect,
    }
}

/// What a client is told of the physics of one entity: its position, if it
/// has one, and then whatever it has of velocity, orientation and action
/// state.
pub open spec fn physics_of(entity: EntityView) -> Seq<ServerMsgView> {
    if entity.pos is Some {
        seq![ServerMsgView::EntityPos { entity: entity.uid }] + (if entity.vel.present {
            seq![ServerMsgView::EntityVel { entity: entity.uid }]
        } else {
            Seq::empty()
        }) + (if entity.ori.present {
            seq![ServerMsgView::EntityOri { entity: entity.uid }]
        } else {
            Seq::empty()
        }) + (if entity.action_state.present {
            seq![ServerMsgView::EntityActionState { entity: entity.uid }]
        } else {
            Seq::empty()
        })
    } else {
        Seq::empty()
    }
}

/// What a client is told of the physics of the first `n` entities.
pub open spec fn physics_upto(entities: Seq<EntityView>, n: int) -> Seq<ServerMsgView>
    decreases n,
{
    if n <= 0 {
        Seq::empty()
    } else {
        physics_upto(entities, n - 1) + physics_of(entities[n - 1])
    }
}

/// The entity of a player who has just registered.
pub open spec fn registered_entity(entity: EntityView, player: PlayerView) -> EntityView {
    EntityView { player: Some(player), ..entity }
}

/// The statistics that a character starts with.
pub open spec fn fresh_stats(name: Seq<char>) -> StatsView {
    StatsView {
        name,
        health: Health { current: 100, maximum: 100, last_change: None },
        energy: Energy { current: 200, maximum: 200, last_change: None },
        level: Level { amount: 1 },
        exp: Exp { current: 0, maximum: 50 },
        is_dead: false,
    }
}

/// The entity of a player who has just entered the world with a character.
pub open spec fn character_entity(
    entity: EntityView,
    name: Seq<char>,
    body: Body,
    spawn_point: BlockPos,
    admins: Seq<Seq<char>>,
) -> EntityView {
    EntityView {
        body: Some(body),
        stats: Some(fresh_stats(name)),
        pos: Some(spawn_point),
        pos_changed: true,
        vel: Synced { present: true, changed: true },
        ori: Synced { present: true, changed: true },
        action_state: Synced { present: true, changed: true },
        has_inventory: true,
        inventory_update: true,
        force_update: true,
        admin: entity.admin || (entity.player is Some && admins.contains(entity.player->0.alias)),
        ..entity
    }
}

/// The server with the first entity of a uid replaced by what `change`
/// makes of it; the server as it is if no entity has the uid.
pub open spec fn with_entity_of(
    server: ServerView,
    uid: u64,
    change: spec_fn(EntityView) -> EntityView,
) -> ServerView {
    let j = entity_index(server.state.entities, uid);
    if j < server.state.entities.len() {
        server.with_entity(j, change(server.state.entities[j]))
    } else {
        server
    }
}

/// What a request that the state machine accepts does.
pub open spec fn accepted(server: ServerView, deferred: DeferredView, i: int, msg: ClientMsg) -> (
    ServerView,
    DeferredView,
) {
    let client = server.clients[i];
    let uid = client.entity;
    match msg {
        ClientMsg::SetViewDistance(vd) => (
            with_entity_of(
                server,
                uid,
                |e: EntityView|
                    match e.player {
                        Some(p) => EntityView {
                            player: Some(PlayerView { view_distance: Some(vd), ..p }),
                            ..e
                        },
                        None => e,
                    },
            ),
            deferred,
        ),
        ClientMsg::SwapInventorySlots(a, b) => (
            with_entity_of(server, uid, |e: EntityView| EntityView { inventory_update: true, ..e }),
            deferred.with_event(EventView::SwapInventorySlots { entity: uid, a, b }),
        ),
        ClientMsg::DropInventorySlot(slot) => (
            with_entity_of(server, uid, |e: EntityView| EntityView { inventory_update: true, ..e }),
            deferred.with_event(EventView::DropInventorySlot { entity: uid, slot }),
        ),
        ClientMsg::PickUp(item) => (
            with_entity_of(server, uid, |e: EntityView| EntityView { inventory_update: true, ..e }),
            deferred.with_event(EventView::PickUp { entity: uid, item }),
        ),
        ClientMsg::Controller => (server, deferred.with_event(EventView::Controller { entity: uid })),
        ClientMsg::ChatMsg { chat_type, message } => (
            server,
            deferred.with_chat(ChatLineView { entity: Some(uid), chat_type, message: message@ }),
        ),
        ClientMsg::PlayerPhysics { pos } => (
            with_entity_of(
                server,
                uid,
                |e: EntityView|
                    EntityView {
                        pos: Some(pos),
                        pos_changed: true,
                        vel: Synced { present: true, changed: true },
                        ori: Synced { present: true, changed: true },
                        ..e
                    },
            ),
            deferred.with_event(EventView::Physics { entity: uid }),
        ),
        ClientMsg::BreakBlock(pos) => (
            server,
            if can_build(server, uid) {
                deferred.with_edit(pos, Block::empty())
            } else {
                deferred
            },
        ),
        ClientMsg::PlaceBlock(pos, block) => (
            server,
            if can_build(server, uid) {
                deferred.with_edit(pos, block)
            } else {
                deferred
            },
        ),
        ClientMsg::TerrainChunkRequest { key } => if server.state.terrain.contains_key(key) {
            (
                server.with_client(
                    i,
                    client.notified(
                        ServerMsgView::TerrainChunkUpdate { key, chunk: server.state.terrain[key] },
                    ),
                ),
                deferred,
            )
        } else {
            (server, deferred.with_request(key))
        },
        _ => (server, deferred),
    }
}

/// Whether the entity of a uid may edit blocks.
pub open spec fn can_build(server: ServerView, uid: u64) -> bool {
    match entity_of(server.state.entities, uid) {
        Some(e) => e.can_build,
        None => false,
    }
}

/// What a request for a state that the state machine allows does.
pub open spec fn allowed(
    server: ServerView,
    deferred: DeferredView,
    i: int,
    msg: ClientMsg,
    state: ClientState,
) -> (ServerView, DeferredView) {
    let client = server.clients[i];
    let uid = client.entity;
    match msg {
        ClientMsg::Register { player, password } => {
            let known = with_entity_of(
                server,
                uid,
                |e: EntityView| registered_entity(e, player@),
            );
            let told = ClientView {
                outbound: client.outbound + physics_upto(
                    known.state.entities,
                    known.state.entities.len() as int,
                ),
                ..client
            };
            (known.with_client(i, told.allowed(state)), deferred)
        },
        ClientMsg::Character { name, body } => {
            let entered = with_entity_of(
                server,
                uid,
                |e: EntityView|
                    character_entity(e, name@, body, server.spawn_point, server.settings.admins),
            );
            (
                entered.with_client(i, client.allowed(state)),
                match entity_of(server.state.entities, uid) {
                    Some(e) => match e.player {
                        Some(p) => deferred.with_chat(
                            ChatLineView {
                                entity: None,
                                chat_type: ChatType::Broadcast,
                                message: online_text(p.alias),
                            },
                        ),
                        None => deferred,
                    },
                    None => deferred,
                },
            )
        },
        _ => (server.with_client(i, client.allowed(state)), deferred),
    }
}

/// The server after the account check that comes with a message of a
/// session in the state `state`: a well-formed registration of a session
/// that is `Connected` takes a free alias. No other message, and no
/// registration in another state, touches the accounts.
pub open spec fn checked(server: ServerView, state: ClientState, msg: ClientMsg) -> ServerView {
    match msg {
        ClientMsg::Register { player, password } => if state == ClientState::Connected
            && alias_is_valid(player.alias@) {
            ServerView {
                accounts: query_accounts(server.accounts, player.alias@, password@),
                ..server
            }
        } else {
            server
        },
        _ => server,
    }
}

/// What one message of the session at the place `i` does.
pub open spec fn handled(server: ServerView, deferred: DeferredView, i: int, msg: ClientMsg) -> Handled {
    let outcome = transition(server.clients[i].state, request_of(server, msg));
    let server = checked(server, server.clients[i].state, msg);
    let client = server.clients[i];
    match outcome {
        Outcome::Refuse(error) => Handled {
            server: server.with_client(i, client.refused(error)),
            deferred,
            disconnect: false,
        },
        Outcome::Ignore => Handled { server, deferred, disconnect: false },
        Outcome::Pong => Handled {
            server: server.with_client(i, client.notified(ServerMsgView::Pong)),
            deferred,
            disconnect: false,
        },
        Outcome::Disconnect => Handled { server, deferred, disconnect: true },
        Outcome::Allow(state) => {
            let (server, deferred) = allowed(server, deferred, i, msg, state);
            Handled { server, deferred, disconnect: false }
        },
        Outcome::Accept => {
            let (server, deferred) = accepted(server, deferred, i, msg);
            Handled { server, deferred, disconnect: false }
        },
    }
}

/// What the first `n` of the messages of a session do, one after the other.
/// Every message is handled, whatever became of those before it; the
/// session is to be torn down if one of them says so.
pub open spec fn handled_upto(
    server: ServerView,
    deferred: DeferredView,
    i: int,
    msgs: Seq<ClientMsg>,
    n: int,
) -> Handled
    decreases n,
{
    if n <= 0 {
        Handled { server, deferred, disconnect: false }
    } else {
        let before = handled_upto(server, deferred, i, msgs, n - 1);
        let now = handled(before.server, before.deferred, i, msgs[n - 1]);
        Handled { disconnect: before.disconnect || now.disconnect, ..now }
    }
}

/// The time for which a session has been silent.
pub open spec fn silence(time: u64, last_ping: u64) -> int {
    if time >= last_ping {
        time - last_ping
    } else {
        0
    }
}

/// Whether a silent session has run out of time, or lost its connection.
pub open spec fn timed_out(server: ServerView, client: ClientView) -> bool {
    silence(server.state.time, client.last_ping) > server.settings.client_timeout || client.error
}

/// Whether a silent session is past half of its time, and is pinged.
pub open spec fn ping_due(server: ServerView, client: ClientView) -> bool {
    silence(server.state.time, client.last_ping) > server.settings.client_timeout / 2
}

/// The end of the look at a session: one that is to be torn down is told
/// so and noted, and if a player was behind it, everybody hears of it.
pub open spec fn finished(server: ServerView, deferred: DeferredView, i: int, disconnect: bool) -> (
    ServerView,
    DeferredView,
) {
    if disconnect {
        let client = server.clients[i];
        let deferred = match entity_of(server.state.entities, client.entity) {
            Some(e) => match e.player {
                Some(p) => deferred.with_chat(
                    ChatLineView {
                        entity: None,
                        chat_type: ChatType::Broadcast,
                        message: offline_text(p.alias),
                    },
                ),
                None => deferred,
            },
            None => deferred,
        };
        (
            server.with_client(i, client.notified(ServerMsgView::Disconnect)),
            deferred.with_disconnect(client.entity),
        )
    } else {
        (server, deferred)
    }
}

/// The look at the session at the place `i`: its messages are handled, or,
/// if it sent none, it is torn down when it has run out of time or lost its
/// connection, and pinged when past half of its time. The result tells
/// whether the session is to be torn down.
pub open spec fn client_handled(server: ServerView, deferred: DeferredView, i: int) -> (
    ServerView,
    DeferredView,
    bool,
) {
    let client = server.clients[i];
    if client.inbound.len() > 0 {
        let heard = server.with_client(
            i,
            ClientView { inbound: Seq::empty(), last_ping: server.state.time, ..client },
        );
        let h = handled_upto(heard, deferred, i, client.inbound, client.inbound.len() as int);
        let (s, d) = finished(h.server, h.deferred, i, h.disconnect);
        (s, d, h.disconnect)
    } else if timed_out(server, client) {
        let (s, d) = finished(server, deferred, i, true);
        (s, d, true)
    } else if ping_due(server, client) {
        (server.with_client(i, client.notified(ServerMsgView::Ping)), deferred, false)
    } else {
        (server, deferred, false)
    }
}

/// The look at the first `n` sessions, in the order of the registry, with
/// the marks of those that are to be torn down.
pub open spec fn clients_handled(server: ServerView, deferred: DeferredView, n: int) -> (
    ServerView,
    DeferredView,
    Seq<bool>,
)
    decreases n,
{
    if n <= 0 {
        (server, deferred, Seq::empty())
    } else {
        let (s, d, marks) = clients_handled(server, deferred, n - 1);
        let (s2, d2, mark) = client_handled(s, d, n - 1);
        (s2, d2, marks.push(mark))
    }
}

/// The first `n` sessions without those that are marked.
pub open spec fn kept(clients: Seq<ClientView>, marks: Seq<bool>, n: int) -> Seq<ClientView>
    decreases n,
{
    if n <= 0 {
        Seq::empty()
    } else if marks[n - 1] {
        kept(clients, marks, n - 1)
    } else {
        kept(clients, marks, n - 1).push(clients[n - 1])
    }
}

/// The mailboxes of those of the first `n` sessions that are marked.
pub open spec fn parted(clients: Seq<ClientView>, marks: Seq<bool>, n: int) -> Seq<PostBoxView>
    decreases n,
{
    if n <= 0 {
        Seq::empty()
    } else if marks[n - 1] {
        parted(clients, marks, n - 1).push(clients[n - 1].mailbox())
    } else {
        parted(clients, marks, n - 1)
    }
}

/// Whether a chat line is a command: a slash and something behind it.
pub open spec fn is_command(message: Seq<char>) -> bool {
    message.len() > 1 && message[0] == '/'
}

/// A chat line with the name of its writer in front.
pub open spec fn decorated(entities: Seq<EntityView>, uid: u64, message: Seq<char>) -> Seq<char> {
    match entity_of(entities, uid) {
        Some(e) => match e.player {
            Some(p) => if e.admin {
                "[ADMIN]["@ + p.alias + "] "@ + message
            } else {
                "["@ + p.alias + "] "@ + message
            },
            None => "[<Unknown>] "@ + message,
        },
        None => "[<Unknown>] "@ + message,
    }
}

/// What one chat line that waited does: a command of a client becomes an
/// event for the host; every other line goes to the sessions that are past
/// registration, a line of a client under the name of its writer.
pub open spec fn chat_passed(server: ServerView, events: Seq<EventView>, line: ChatLineView) -> (
    ServerView,
    Seq<EventView>,
) {
    match line.entity {
        Some(uid) => if is_command(line.message) {
            (server, events.push(EventView::Chat { entity: Some(uid), msg: line.message.skip(1) }))
        } else {
            (
                ServerView {
                    clients: notified_where(
                        server.clients,
                        select_registered(server.clients),
                        chat_view(
                            line.chat_type,
                            decorated(server.state.entities, uid, line.message),
                        ),
                    ),
                    ..server
                },
                events,
            )
        },
        None => (
            ServerView {
                clients: notified_where(
                    server.clients,
                    select_registered(server.clients),
                    chat_view(line.chat_type, line.message),
                ),
                ..server
            },
            events,
        ),
    }
}

/// What the first `n` chat lines that waited do, one after the other.
pub open spec fn chats_passed(
    server: ServerView,
    events: Seq<EventView>,
    chats: Seq<ChatLineView>,
    n: int,
) -> (ServerView, Seq<EventView>)
    decreases n,
{
    if n <= 0 {
        (server, events)
    } else {
        let (s, e) = chats_passed(server, events, chats, n - 1);
        chat_passed(s, e, chats[n - 1])
    }
}

/// The state and the events after the entities of the first `n` sessions
/// that ended were removed.
pub open spec fn entities_dropped(
    state: StateView,
    events: Seq<EventView>,
    gone: Seq<u64>,
    n: int,
) -> (StateView, Seq<EventView>)
    decreases n,
{
    if n <= 0 {
        (state, events)
    } else {
        let (s, e) = entities_dropped(state, events, gone, n - 1);
        (
            s.without_entity(gone[n - 1]),
            e.push(EventView::ClientDisconnected { entity: gone[n - 1] }),
        )
    }
}

/// The keys that wait for a worker, and the events, after the first `n`
/// chunks that were asked for: a key that waits already is not asked for
/// again.
pub open spec fn chunks_requested(
    pending: Set<ChunkKey>,
    events: Seq<EventView>,
    keys: Seq<ChunkKey>,
    n: int,
) -> (Set<ChunkKey>, Seq<EventView>)
    decreases n,
{
    if n <= 0 {
        (pending, events)
    } else {
        let (p, e) = chunks_requested(pending, events, keys, n - 1);
        if p.contains(keys[n - 1]) {
            (p, e)
        } else {
            (p.insert(keys[n - 1]), e.push(EventView::GenerateChunk { key: keys[n - 1] }))
        }
    }
}

/// The block edits that wait for the next tick after the first `n` edits
/// that clients asked for: of two edits of one position the later stays.
pub open spec fn blocks_set(
    waiting: Map<BlockPos, Block>,
    edits: Seq<(BlockPos, Block)>,
    n: int,
) -> Map<BlockPos, Block>
    decreases n,
{
    if n <= 0 {
        waiting
    } else {
        blocks_set(waiting, edits, n - 1).insert(edits[n - 1].0, edits[n - 1].1)
    }
}

/// The server after the messages of all its sessions were handled, and the
/// events that this gives: the sessions are looked at in order; those that
/// ended leave the registry, and their mailboxes go to the closed ones;
/// then the chat
/// lines are passed on, the
/// entities of the sessions that ended are removed, the chunks that were
/// asked for and are not loaded are asked of the workers, and the block
/// edits are put down for the next tick.
pub open spec fn messages_handled(server: ServerView) -> (ServerView, Seq<EventView>) {
    let n = server.clients.len() as int;
    let (looked, deferred, marks) = clients_handled(server, DeferredView::empty(), n);
    let remaining = ServerView {
        clients: kept(looked.clients, marks, n),
        closed: looked.closed + parted(looked.clients, marks, n),
        ..looked
    };
    let (spoken, events) = chats_passed(
        remaining,
        deferred.events,
        deferred.chats,
        deferred.chats.len() as int,
    );
    let (state, events) = entities_dropped(
        spoken.state,
        events,
        deferred.disconnected,
        deferred.disconnected.len() as int,
    );
    let (pending, events) = chunks_requested(
        spoken.pending,
        events,
        deferred.requested_chunks,
        deferred.requested_chunks.len() as int,
    );
    (
        ServerView {
            state: StateView {
                block_change: blocks_set(
                    state.block_change,
                    deferred.modified_blocks,
                    deferred.modified_blocks.len() as int,
                ),
                ..state
            },
            pending,
            ..spoken
        },
        events,
    )
}

} // verus!
