//! Handling the messages of the clients.

use crate::client::{entities_rise, Client, ClientView};
use crate::collections::{BlockPos, ChunkKey};
use crate::comp::{Body, EntityView, Player, PlayerView, Synced};
use crate::event::{events_view, push_event, Event, EventView};
use crate::messages::{
    accepted, allowed, blocks_set, can_build, character_entity, chat_passed, chats_passed,
    checked, chunks_requested, client_handled, clients_handled, decorated, entities_dropped,
    finished, fresh_stats, handled, handled_upto, kept, messages_handled, offline_text,
    parted,
    online_text, physics_of, physics_upto, registered_entity, request_of, with_entity_of,
    ChatLineView, DeferredView,
};
use crate::msg::{ChatType, ClientMsg, ClientState, ServerMsg, ServerMsgView};
use crate::protocol::{decide, transition, Outcome, Request};
use crate::server::{lemma_client_update, lemma_entity_update, Server, ServerView};
use crate::state::{lemma_entity_index, StateView};
use crate::stats::Stats;
use crate::terrain::Block;
use vstd::prelude::*;

verus! {

/// A chat line that waits to be passed on.
#[derive(Debug, PartialEq, Eq)]
pub struct ChatLine {
    /// The entity of the client that wrote the line, if a client did.
    pub entity: Option<u64>,
    pub chat_type: ChatType,
    pub message: String,
}

impl View for ChatLine {
    type V = ChatLineView;

    open spec fn view(&self) -> ChatLineView {
        ChatLineView { entity: self.entity, chat_type: self.chat_type, message: self.message@ }
    }
}

/// What the handling of messages puts off until every session was looked
/// at.
#[derive(Debug, PartialEq, Eq)]
pub struct Deferred {
    pub chats: Vec<ChatLine>,
    pub disconnected: Vec<u64>,
    pub requested_chunks: Vec<ChunkKey>,
    pub modified_blocks: Vec<(BlockPos, Block)>,
    pub events: Vec<Event>,
}

impl View for Deferred {
    type V = DeferredView;

    open spec fn view(&self) -> DeferredView {
        DeferredView {
            chats: self.chats@.map_values(|l: ChatLine| l@),
            disconnected: self.disconnected@,
            requested_chunks: self.requested_chunks@,
            modified_blocks: self.modified_blocks@,
            events: events_view(self.events@),
        }
    }
}

impl Deferred {
    /// Nothing put off.
    pub fn new() -> (deferred: Deferred)
        ensures
            deferred@ == DeferredView::empty(),
    {
        let deferred = Deferred {
            chats: Vec::new(),
            disconnected: Vec::new(),
            requested_chunks: Vec::new(),
            modified_blocks: Vec::new(),
            events: Vec::new(),
        };
        assert(deferred@.chats =~= Seq::<ChatLineView>::empty());
        assert(deferred@.events =~= Seq::<EventView>::empty());
        deferred
    }

    /// Puts a chat line off.
    pub fn chat(&mut self, line: ChatLine)
        ensures
            final(self)@ == old(self)@.with_chat(line@),
    {
        self.chats.push(line);
        assert(self@.chats =~= old(self)@.chats.push(line@));
    }

    /// Puts an event off.
    pub fn event(&mut self, event: Event)
        ensures
            final(self)@ == old(self)@.with_event(event@),
    {
        push_event(&mut self.events, event);
    }
}

/// The line that tells everybody of a player who entered the world.
pub fn online_line(alias: &String) -> (line: ChatLine)
    ensures
        line@ == (ChatLineView {
            entity: None,
            chat_type: ChatType::Broadcast,
            message: online_text(alias@),
        }),
{
    let mut message = String::from_str("[");
    message.append(alias.as_str());
    message.append("] is now online.");
    ChatLine { entity: None, chat_type: ChatType::Broadcast, message }
}

/// The line that tells everybody of a player whose session ended.
pub fn offline_line(alias: &String) -> (line: ChatLine)
    ensures
        line@ == (ChatLineView {
            entity: None,
            chat_type: ChatType::Broadcast,
            message: offline_text(alias@),
        }),
{
    let mut message = alias.clone();
    message.append(" went offline.");
    ChatLine { entity: None, chat_type: ChatType::Broadcast, message }
}

impl Server {
    /// Marks the inventory of the first entity with the uid as changed.
    fn mark_inventory(&mut self, uid: u64)
        ensures
            final(self)@ == with_entity_of(
                old(self)@,
                uid,
                |e: EntityView| EntityView { inventory_update: true, ..e },
            ),
            final(self)@.state.next_uid == old(self)@.state.next_uid,
            old(self)@.wf() ==> final(self)@.wf(),
            final(self)@.world == old(self)@.world,
    {
        match self.state.find_entity(uid) {
            Some(j) => {
                self.state.entities[j].inventory_update = true;
                proof {
                    lemma_entity_update(old(self).state.entities@, self.state.entities@, j as int);
                }
            },
            None => {},
        }
    }

    /// Whether the first entity with the uid may edit blocks.
    fn entity_can_build(&self, uid: u64) -> (r: bool)
        ensures
            r == can_build(self@, uid),
    {
        match self.state.find_entity(uid) {
            Some(j) => self.state.entities[j].can_build,
            None => false,
        }
    }

    /// Tells the session at the place `i` of the physics of every entity.
    fn notify_physics(&mut self, i: usize)
        requires
            i < old(self)@.clients.len(),
        ensures
            final(self)@ == old(self)@.with_client(
                i as int,
                ClientView {
                    outbound: old(self)@.clients[i as int].outbound + physics_upto(
                        old(self)@.state.entities,
                        old(self)@.state.entities.len() as int,
                    ),
                    ..old(self)@.clients[i as int]
                },
            ),
            final(self)@.state.next_uid == old(self)@.state.next_uid,
            old(self)@.wf() ==> final(self)@.wf(),
            final(self)@.world == old(self)@.world,
    {
        let ghost start = old(self)@;
        let ghost client = start.clients[i as int];
        let mut j: usize = 0;
        assert(self@ =~= start.with_client(
            i as int,
            ClientView { outbound: client.outbound + physics_upto(start.state.entities, 0), ..client },
        )) by {
            assert(client.outbound + Seq::<ServerMsgView>::empty() =~= client.outbound);
            assert(start.clients.update(i as int, client) =~= start.clients);
        }
        while j < self.state.entities.len()
            invariant
                j <= self.state.entities.len(),
                self.state.entities.len() == start.state.entities.len(),
                i < start.clients.len(),
                client == start.clients[i as int],
                start == old(self)@,
                self@ == start.with_client(
                    i as int,
                    ClientView {
                        outbound: client.outbound + physics_upto(start.state.entities, j as int),
                        ..client
                    },
                ),
            decreases self.state.entities.len() - j,
        {
            let ghost sent = physics_upto(start.state.entities, j as int);
            let ghost entity = start.state.entities[j as int];
            assert(entity == self.state.entities[j as int]@);
            let uid = self.state.entities[j].uid;
            let has_pos = self.state.entities[j].pos.is_some();
            let has_vel = self.state.entities[j].vel.present;
            let has_ori = self.state.entities[j].ori.present;
            let has_action = self.state.entities[j].action_state.present;
            if has_pos {
                self.client_notify(i, ServerMsg::EntityPos { entity: uid });
                if has_vel {
                    self.client_notify(i, ServerMsg::EntityVel { entity: uid });
                }
                if has_ori {
                    self.client_notify(i, ServerMsg::EntityOri { entity: uid });
                }
                if has_action {
                    self.client_notify(i, ServerMsg::EntityActionState { entity: uid });
                }
            }
            proof {
                let grown = ClientView {
                    outbound: client.outbound + (sent + physics_of(entity)),
                    ..client
                };
                assert(self@.clients[i as int].outbound =~= grown.outbound);
                assert(self@.clients =~= start.clients.update(i as int, grown));
                assert(client.outbound + (sent + physics_of(entity)) =~= client.outbound
                    + physics_upto(start.state.entities, j as int + 1));
            }
            j = j + 1;
        }
    }

    /// Gives the first entity with the uid the data of a player.
    fn set_player(&mut self, uid: u64, player: Player)
        ensures
            final(self)@ == with_entity_of(
                old(self)@,
                uid,
                |e: EntityView| registered_entity(e, player@),
            ),
            final(self)@.state.next_uid == old(self)@.state.next_uid,
            final(self)@.state.entities.len() == old(self)@.state.entities.len(),
            final(self)@.clients == old(self)@.clients,
            old(self)@.wf() ==> final(self)@.wf(),
            final(self)@.world == old(self)@.world,
    {
        match self.state.find_entity(uid) {
            Some(j) => {
                self.state.entities[j].player = Some(player);
                proof {
                    lemma_entity_update(old(self).state.entities@, self.state.entities@, j as int);
                }
            },
            None => {},
        }
    }

    /// Takes a player in: the entity of the session at the place `i` gets
    /// the player's data, the session is told of the physics of every
    /// entity, and it becomes `Registered`.
    pub fn initialize_player(&mut self, i: usize, player: Player)
        requires
            i < old(self)@.clients.len(),
        ensures
            final(self)@ == ({
                let server = old(self)@;
                let client = server.clients[i as int];
                let known = with_entity_of(
                    server,
                    client.entity,
                    |e: EntityView| registered_entity(e, player@),
                );
                let told = ClientView {
                    outbound: client.outbound + physics_upto(
                        known.state.entities,
                        known.state.entities.len() as int,
                    ),
                    ..client
                };
                known.with_client(i as int, told.allowed(ClientState::Registered))
            }),
            final(self)@.state.next_uid == old(self)@.state.next_uid,
            old(self)@.wf() ==> final(self)@.wf(),
            final(self)@.world == old(self)@.world,
    {
        let uid = self.clients.clients[i].entity;
        self.set_player(uid, player);
        let ghost known = self@;
        self.notify_physics(i);
        let ghost told = self@;
        self.client_allow(i, ClientState::Registered);
        assert(self@.clients =~= known.clients.update(
            i as int,
            told.clients[i as int].allowed(ClientState::Registered),
        ));
    }

    /// Lets a player enter the world: the entity of the session at the place
    /// `i` gets a body, fresh statistics and the spawn point, and the rights
    /// of an admin if the player's alias is among the admins; the session
    /// becomes `Character`.
    pub fn create_player_character(&mut self, i: usize, name: String, body: Body)
        requires
            i < old(self)@.clients.len(),
        ensures
            final(self)@ == ({
                let server = old(self)@;
                let client = server.clients[i as int];
                with_entity_of(
                    server,
                    client.entity,
                    |e: EntityView|
                        character_entity(e, name@, body, server.spawn_point, server.settings.admins),
                ).with_client(i as int, client.allowed(ClientState::Character))
            }),
            final(self)@.state.next_uid == old(self)@.state.next_uid,
            old(self)@.wf() ==> final(self)@.wf(),
            final(self)@.world == old(self)@.world,
    {
        let uid = self.clients.clients[i].entity;
        match self.state.find_entity(uid) {
            Some(j) => {
                let is_admin = match &self.state.entities[j].player {
                    Some(player) => self.server_settings.is_admin(&player.alias),
                    None => false,
                };
                let spawn_point = self.spawn_point;
                let stats = Stats::new(name);
                assert(crate::comp::stats_view(stats) == fresh_stats(name@));
                let entity = &mut self.state.entities[j];
                entity.body = Some(body);
                entity.stats = Some(stats);
                entity.pos = Some(spawn_point);
                entity.pos_changed = true;
                entity.vel = Synced { present: true, changed: true };
                entity.ori = Synced { present: true, changed: true };
                entity.action_state = Synced { present: true, changed: true };
                entity.has_inventory = true;
                entity.inventory_update = true;
                entity.force_update = true;
                if is_admin {
                    entity.admin = true;
                }
                proof {
                    lemma_entity_update(old(self).state.entities@, self.state.entities@, j as int);
                }
            },
            None => {},
        }
        self.client_allow(i, ClientState::Character);
    }

    /// Carries out a request for a state that the state machine allows.
    fn carry_allowed(&mut self, deferred: &mut Deferred, i: usize, msg: ClientMsg, state: ClientState)
        requires
            i < old(self)@.clients.len(),
            msg is Register ==> state == ClientState::Registered,
            msg is Character ==> state == ClientState::Character,
        ensures
            (final(self)@, final(deferred)@) == allowed(
                old(self)@,
                old(deferred)@,
                i as int,
                msg,
                state,
            ),
            final(self)@.state.next_uid == old(self)@.state.next_uid,
            old(self)@.wf() ==> final(self)@.wf(),
            final(self)@.world == old(self)@.world,
    {
        match msg {
            ClientMsg::Register { player, password } => {
                self.initialize_player(i, player);
            },
            ClientMsg::Character { name, body } => {
                let uid = self.clients.clients[i].entity;
                proof {
                    lemma_entity_index(self@.state.entities, uid);
                }
                let line = match self.state.find_entity(uid) {
                    Some(j) => match &self.state.entities[j].player {
                        Some(player) => Some(online_line(&player.alias)),
                        None => None,
                    },
                    None => None,
                };
                self.create_player_character(i, name, body);
                match line {
                    Some(line) => {
                        deferred.chat(line);
                    },
                    None => {},
                }
            },
            _ => {
                self.client_allow(i, state);
            },
        }
    }

    /// Sets the view distance of the player behind the first entity with the
    /// uid.
    fn set_view_distance(&mut self, uid: u64, vd: u32)
        ensures
            final(self)@ == with_entity_of(
                old(self)@,
                uid,
                |e: EntityView|
                    match e.player {
                        Some(p) => EntityView {
                            player: Some(PlayerView { view_distance: Some(vd), ..p }),
                            ..e
                        },
                        None => e,
                    },
            ),
            final(self)@.state.next_uid == old(self)@.state.next_uid,
            old(self)@.wf() ==> final(self)@.wf(),
            final(self)@.world == old(self)@.world,
    {
        match self.state.find_entity(uid) {
            Some(j) => {
                match &mut self.state.entities[j].player {
                    Some(player) => {
                        player.view_distance = Some(vd);
                    },
                    None => {},
                }
                proof {
                    lemma_entity_update(old(self).state.entities@, self.state.entities@, j as int);
                    assert(old(self)@.state.entities.update(j as int, old(self)@.state.entities[j as int])
                        =~= old(self)@.state.entities);
                }
            },
            None => {},
        }
    }

    /// Moves the first entity with the uid to the block that its client
    /// reported.
    fn set_reported_pos(&mut self, uid: u64, pos: BlockPos)
        ensures
            final(self)@ == with_entity_of(
                old(self)@,
                uid,
                |e: EntityView|
                    EntityView {
                        pos: Some(pos),
                        pos_changed: true,
                        vel: Synced { present: true, changed: true },
                        ori: Synced { present: true, changed: true },
                        ..e
                    },
            ),
            final(self)@.state.next_uid == old(self)@.state.next_uid,
            old(self)@.wf() ==> final(self)@.wf(),
            final(self)@.world == old(self)@.world,
    {
        match self.state.find_entity(uid) {
            Some(j) => {
                let entity = &mut self.state.entities[j];
                entity.pos = Some(pos);
                entity.pos_changed = true;
                entity.vel = Synced { present: true, changed: true };
                entity.ori = Synced { present: true, changed: true };
                proof {
                    lemma_entity_update(old(self).state.entities@, self.state.entities@, j as int);
                }
            },
            None => {},
        }
    }

    /// Serves a chunk to the session at the place `i` if it is loaded, and
    /// else notes that it was asked for.
    fn serve_chunk(&mut self, deferred: &mut Deferred, i: usize, key: ChunkKey)
        requires
            i < old(self)@.clients.len(),
        ensures
            (final(self)@, final(deferred)@) == (if old(self)@.state.terrain.contains_key(key) {
                (
                    old(self)@.with_client(
                        i as int,
                        old(self)@.clients[i as int].notified(
                            ServerMsgView::TerrainChunkUpdate {
                                key,
                                chunk: old(self)@.state.terrain[key],
                            },
                        ),
                    ),
                    old(deferred)@,
                )
            } else {
                (old(self)@, old(deferred)@.with_request(key))
            }),
            final(self)@.state.next_uid == old(self)@.state.next_uid,
            old(self)@.wf() ==> final(self)@.wf(),
            final(self)@.world == old(self)@.world,
    {
        let copy = match self.state.terrain.get_key(key) {
            Some(chunk) => Some(chunk.cloned()),
            None => None,
        };
        match copy {
            Some(chunk) => {
                self.client_notify(i, ServerMsg::TerrainChunkUpdate { key, chunk });
            },
            None => {
                deferred.requested_chunks.push(key);
            },
        }
    }

    /// Notes a block edit of the entity with the uid, if it may edit blocks.
    fn note_edit(&self, deferred: &mut Deferred, uid: u64, pos: BlockPos, block: Block)
        ensures
            final(deferred)@ == (if can_build(self@, uid) {
                old(deferred)@.with_edit(pos, block)
            } else {
                old(deferred)@
            }),
    {
        if self.entity_can_build(uid) {
            deferred.modified_blocks.push((pos, block));
        }
    }

    /// Carries out a request that the state machine accepts.
    fn carry_accepted(&mut self, deferred: &mut Deferred, i: usize, msg: ClientMsg)
        requires
            i < old(self)@.clients.len(),
        ensures
            (final(self)@, final(deferred)@) == accepted(old(self)@, old(deferred)@, i as int, msg),
            final(self)@.state.next_uid == old(self)@.state.next_uid,
            old(self)@.wf() ==> final(self)@.wf(),
            final(self)@.world == old(self)@.world,
    {
        let uid = self.clients.clients[i].entity;
        match msg {
            ClientMsg::SetViewDistance(vd) => {
                self.set_view_distance(uid, vd);
            },
            ClientMsg::SwapInventorySlots(a, b) => {
                self.mark_inventory(uid);
                deferred.event(Event::SwapInventorySlots { entity: uid, a, b });
            },
            ClientMsg::DropInventorySlot(slot) => {
                self.mark_inventory(uid);
                deferred.event(Event::DropInventorySlot { entity: uid, slot });
            },
            ClientMsg::PickUp(item) => {
                self.mark_inventory(uid);
                deferred.event(Event::PickUp { entity: uid, item });
            },
            ClientMsg::Controller => {
                deferred.event(Event::Controller { entity: uid });
            },
            ClientMsg::ChatMsg { chat_type, message } => {
                deferred.chat(ChatLine { entity: Some(uid), chat_type, message });
            },
            ClientMsg::PlayerPhysics { pos } => {
                self.set_reported_pos(uid, pos);
                deferred.event(Event::Physics { entity: uid });
            },
            ClientMsg::BreakBlock(pos) => {
                self.note_edit(deferred, uid, pos, Block::empty());
            },
            ClientMsg::PlaceBlock(pos, block) => {
                self.note_edit(deferred, uid, pos, block);
            },
            ClientMsg::TerrainChunkRequest { key } => {
                self.serve_chunk(deferred, i, key);
            },
            _ => {},
        }
    }

    /// What a message of a session in the state `state` asks of the state
    /// machine. A well-formed registration of a session that is `Connected`
    /// is checked against the accounts, and takes its alias if it is free.
    fn request(&mut self, state: ClientState, msg: &ClientMsg) -> (request: Request)
        ensures
            final(self)@ == checked(old(self)@, state, *msg),
            transition(state, request) == transition(state, request_of(old(self)@, *msg)),
            final(self)@.state.next_uid == old(self)@.state.next_uid,
            old(self)@.wf() ==> final(self)@.wf(),
            final(self)@.world == old(self)@.world,
    {
        match msg {
            ClientMsg::RequestState(requested) => Request::RequestState(*requested),
            ClientMsg::Register { player, password } => {
                let valid = player.is_valid();
                let connected = match state {
                    ClientState::Connected => true,
                    _ => false,
                };
                let accepted = if valid && connected {
                    self.accounts.query(player.alias.clone(), password.clone())
                } else {
                    false
                };
                Request::Register { valid, accepted }
            },
            ClientMsg::Character { .. } => Request::EnterCharacter,
            ClientMsg::Controller => Request::Controller,
            ClientMsg::ChatMsg { .. } => Request::Chat,
            ClientMsg::PlayerPhysics { .. } => Request::Physics,
            ClientMsg::TerrainChunkRequest { .. } => Request::ChunkRequest,
            ClientMsg::SetViewDistance(_) => Request::SetViewDistance,
            ClientMsg::SwapInventorySlots(_, _) => Request::Inventory,
            ClientMsg::DropInventorySlot(_) => Request::Inventory,
            ClientMsg::PickUp(_) => Request::Inventory,
            ClientMsg::BreakBlock(_) => Request::BlockEdit,
            ClientMsg::PlaceBlock(_, _) => Request::BlockEdit,
            ClientMsg::Ping => Request::Ping,
            ClientMsg::Pong => Request::Pong,
            ClientMsg::Disconnect => Request::Disconnect,
        }
    }

    /// Handles one message of the session at the place `i`, and tells
    /// whether the session is to be torn down.
    pub fn handle_message(&mut self, deferred: &mut Deferred, i: usize, msg: ClientMsg) -> (disconnect:
        bool)
        requires
            i < old(self)@.clients.len(),
        ensures
            ({
                let h = handled(old(self)@, old(deferred)@, i as int, msg);
                final(self)@ == h.server && final(deferred)@ == h.deferred && disconnect
                    == h.disconnect
            }),
            final(self)@.clients.len() == old(self)@.clients.len(),
            final(self)@.state.next_uid == old(self)@.state.next_uid,
            old(self)@.wf() ==> final(self)@.wf(),
            final(self)@.world == old(self)@.world,
    {
        let state = self.clients.clients[i].client_state;
        let request = self.request(state, &msg);
        let outcome = decide(state, request);
        assert(outcome == transition(state, request_of(old(self)@, msg)));
        assert(self@.clients == old(self)@.clients);
        match outcome {
            Outcome::Refuse(error) => {
                self.client_refuse(i, error);
                false
            },
            Outcome::Ignore => false,
            Outcome::Pong => {
                self.client_notify(i, ServerMsg::Pong);
                false
            },
            Outcome::Disconnect => true,
            Outcome::Allow(new_state) => {
                self.carry_allowed(deferred, i, msg, new_state);
                false
            },
            Outcome::Accept => {
                self.carry_accepted(deferred, i, msg);
                false
            },
        }
    }

    /// Handles the messages that the session at the place `i` sent, oldest
    /// first, every one of them, and tells whether the session is to be torn
    /// down.
    pub fn handle_messages(&mut self, deferred: &mut Deferred, i: usize, msgs: Vec<ClientMsg>) -> (disconnect:
        bool)
        requires
            i < old(self)@.clients.len(),
        ensures
            ({
                let h = handled_upto(
                    old(self)@,
                    old(deferred)@,
                    i as int,
                    msgs@,
                    msgs@.len() as int,
                );
                final(self)@ == h.server && final(deferred)@ == h.deferred && disconnect
                    == h.disconnect
            }),
            final(self)@.clients.len() == old(self)@.clients.len(),
            final(self)@.state.next_uid == old(self)@.state.next_uid,
            old(self)@.wf() ==> final(self)@.wf(),
            final(self)@.world == old(self)@.world,
    {
        let ghost start = old(self)@;
        let ghost put_off = old(deferred)@;
        let ghost all = msgs@;
        let mut queue = msgs;
        let mut disconnect = false;
        let mut k: usize = 0;
        while k < queue.len()
            invariant
                old(self)@.wf() ==> self@.wf(),
                self@.world == old(self)@.world,
                k <= queue.len(),
                queue.len() == all.len(),
                forall|j: int| k <= j < all.len() ==> queue[j] == all[j],
                start == old(self)@,
                put_off == old(deferred)@,
                self@.state.next_uid == old(self)@.state.next_uid,
                all == msgs@,
                self@.clients.len() == start.clients.len(),
                i < start.clients.len(),
                ({
                    let h = handled_upto(start, put_off, i as int, all, k as int);
                    self@ == h.server && deferred@ == h.deferred && disconnect == h.disconnect
                }),
            decreases queue.len() - k,
        {
            let mut msg = ClientMsg::Pong;
            std::mem::swap(&mut msg, &mut queue[k]);
            assert(msg == all[k as int]);
            let gone = self.handle_message(deferred, i, msg);
            disconnect = disconnect || gone;
            k = k + 1;
        }
        disconnect
    }

    /// Ends the look at the session at the place `i`: if it is to be torn
    /// down, it is told so and noted, and if a player was behind it, a line
    /// for everybody is put off.
    fn finish_client(&mut self, deferred: &mut Deferred, i: usize, disconnect: bool)
        requires
            i < old(self)@.clients.len(),
        ensures
            (final(self)@, final(deferred)@) == finished(
                old(self)@,
                old(deferred)@,
                i as int,
                disconnect,
            ),
            final(self)@.state.next_uid == old(self)@.state.next_uid,
            old(self)@.wf() ==> final(self)@.wf(),
            final(self)@.world == old(self)@.world,
    {
        if disconnect {
            let uid = self.clients.clients[i].entity;
            proof {
                lemma_entity_index(self@.state.entities, uid);
            }
            match self.state.find_entity(uid) {
                Some(j) => match &self.state.entities[j].player {
                    Some(player) => {
                        deferred.chat(offline_line(&player.alias));
                    },
                    None => {},
                },
                None => {},
            }
            deferred.disconnected.push(uid);
            self.client_notify(i, ServerMsg::Disconnect);
        }
    }

    /// Looks at the session at the place `i`: handles what it sent, or, if
    /// it sent nothing, checks how long it has been silent. Tells whether
    /// the session is to be torn down.
    pub fn handle_client(&mut self, deferred: &mut Deferred, i: usize) -> (disconnect: bool)
        requires
            i < old(self)@.clients.len(),
        ensures
            (final(self)@, final(deferred)@, disconnect) == client_handled(
                old(self)@,
                old(deferred)@,
                i as int,
            ),
            final(self)@.clients.len() == old(self)@.clients.len(),
            final(self)@.state.next_uid == old(self)@.state.next_uid,
            old(self)@.wf() ==> final(self)@.wf(),
            final(self)@.world == old(self)@.world,
    {
        let time = self.state.time;
        let msgs = self.clients.clients[i].postbox.new_messages();
        if msgs.len() > 0 {
            self.clients.clients[i].last_ping = time;
            proof {
                lemma_client_update(old(self).clients.clients@, self.clients.clients@, i as int);
            }
            let disconnect = self.handle_messages(deferred, i, msgs);
            self.finish_client(deferred, i, disconnect);
            disconnect
        } else {
            proof {
                lemma_client_update(old(self).clients.clients@, self.clients.clients@, i as int);
                assert(self.clients.clients[i as int]@.inbound =~= old(self)@.clients[i as int].inbound);
                assert(self@.clients =~= old(self)@.clients);
            }
            let last_ping = self.clients.clients[i].last_ping;
            let silent: u64 = if time >= last_ping {
                time - last_ping
            } else {
                0
            };
            let timeout = self.server_settings.client_timeout;
            if silent > timeout || self.clients.clients[i].postbox.error() {
                self.finish_client(deferred, i, true);
                true
            } else if silent > timeout / 2 {
                self.client_notify(i, ServerMsg::Ping);
                false
            } else {
                false
            }
        }
    }

    /// Takes the sessions that are marked out of the registry and puts
    /// their mailboxes behind the closed ones; the others keep their order.
    pub fn remove_marked(&mut self, marks: &Vec<bool>)
        requires
            marks.len() == old(self)@.clients.len(),
        ensures
            final(self)@ == (ServerView {
                clients: kept(old(self)@.clients, marks@, marks.len() as int),
                closed: old(self)@.closed + parted(old(self)@.clients, marks@, marks.len() as int),
                ..old(self)@
            }),
            final(self)@.state.next_uid == old(self)@.state.next_uid,
            old(self)@.wf() ==> final(self)@.wf(),
            final(self)@.world == old(self)@.world,
    {
        let ghost before = self@.clients;
        let mut all: Vec<Client> = Vec::new();
        std::mem::swap(&mut all, &mut self.clients.clients);
        assert(self@.clients =~= kept(before, marks@, 0));
        assert(self@.closed =~= old(self)@.closed + parted(before, marks@, 0));
        let mut j: usize = 0;
        while j < all.len()
            invariant
                j <= all.len(),
                all.len() == marks.len(),
                before.len() == all.len(),
                forall|k: int| j <= k < all.len() ==> (#[trigger] all[k])@ == before[k],
                self@ == (ServerView {
                    clients: kept(before, marks@, j as int),
                    closed: old(self)@.closed + parted(before, marks@, j as int),
                    ..old(self)@
                }),
            decreases all.len() - j,
        {
            let mut client = Client::new(0, crate::client::PostBox::new(0), 0);
            std::mem::swap(&mut client, &mut all[j]);
            if marks[j] {
                let ghost closed = self@.closed;
                let Client { entity: _, client_state: _, postbox, last_ping: _ } = client;
                self.closed.push(postbox);
                assert(self@.closed =~= closed.push(before[j as int].mailbox()));
                assert(self@.closed =~= old(self)@.closed + parted(before, marks@, j as int + 1));
            } else {
                self.clients.add(client);
            }
            j = j + 1;
        }
        proof {
            if old(self)@.wf() {
                lemma_kept_entities_rise(
                    before,
                    marks@,
                    marks@.len() as int,
                    old(self)@.state.next_uid,
                );
            }
        }
    }

    /// A chat line of the entity with the uid, with the name of its writer
    /// in front.
    fn decorate(&self, uid: u64, message: &String) -> (text: String)
        ensures
            text@ == decorated(self@.state.entities, uid, message@),
    {
        proof {
            lemma_entity_index(self@.state.entities, uid);
        }
        let mut text = match self.state.find_entity(uid) {
            Some(j) => match &self.state.entities[j].player {
                Some(player) => {
                    let mut text = if self.state.entities[j].admin {
                        String::from_str("[ADMIN][")
                    } else {
                        String::from_str("[")
                    };
                    text.append(player.alias.as_str());
                    text.append("] ");
                    text
                },
                None => String::from_str("[<Unknown>] "),
            },
            None => String::from_str("[<Unknown>] "),
        };
        text.append(message.as_str());
        text
    }

    /// Passes one chat line on.
    fn pass_chat(&mut self, events: &mut Vec<Event>, line: ChatLine)
        ensures
            (final(self)@, events_view(final(events)@)) == chat_passed(
                old(self)@,
                events_view(old(events)@),
                line@,
            ),
            final(self)@.state.next_uid == old(self)@.state.next_uid,
            old(self)@.wf() ==> final(self)@.wf(),
            final(self)@.world == old(self)@.world,
    {
        match line.entity {
            Some(uid) => {
                let len = line.message.as_str().unicode_len();
                if len > 1 && line.message.as_str().get_char(0) == '/' {
                    let argv = String::from_str(line.message.as_str().substring_char(1, len));
                    push_event(events, Event::Chat { entity: Some(uid), msg: argv });
                } else {
                    let message = self.decorate(uid, &line.message);
                    self.clients.notify_registered(
                        ServerMsg::ChatMsg { chat_type: line.chat_type, message },
                    );
                }
            },
            None => {
                self.clients.notify_registered(
                    ServerMsg::ChatMsg { chat_type: line.chat_type, message: line.message },
                );
            },
        }
    }

    /// Passes the chat lines on, oldest first.
    fn pass_chats(&mut self, events: &mut Vec<Event>, chats: Vec<ChatLine>)
        ensures
            (final(self)@, events_view(final(events)@)) == chats_passed(
                old(self)@,
                events_view(old(events)@),
                chats@.map_values(|l: ChatLine| l@),
                chats@.len() as int,
            ),
            final(self)@.state.next_uid == old(self)@.state.next_uid,
            old(self)@.wf() ==> final(self)@.wf(),
            final(self)@.world == old(self)@.world,
    {
        let ghost lines = chats@.map_values(|l: ChatLine| l@);
        let mut queue = chats;
        let mut k: usize = 0;
        while k < queue.len()
            invariant
                old(self)@.wf() ==> self@.wf(),
                self@.world == old(self)@.world,
                k <= queue.len(),
                queue.len() == lines.len(),
                self@.state.next_uid == old(self)@.state.next_uid,
                forall|j: int| k <= j < lines.len() ==> (#[trigger] queue[j])@ == lines[j],
                (self@, events_view(events@)) == chats_passed(
                    old(self)@,
                    events_view(old(events)@),
                    lines,
                    k as int,
                ),
            decreases queue.len() - k,
        {
            let mut line = ChatLine {
                entity: None,
                chat_type: ChatType::Chat,
                message: String::new(),
            };
            std::mem::swap(&mut line, &mut queue[k]);
            self.pass_chat(events, line);
            k = k + 1;
        }
    }

    /// Removes the entities of the sessions that ended, and tells the host
    /// of each.
    fn drop_entities(&mut self, events: &mut Vec<Event>, gone: &Vec<u64>)
        ensures
            final(self)@ == (ServerView {
                state: entities_dropped(
                    old(self)@.state,
                    events_view(old(events)@),
                    gone@,
                    gone@.len() as int,
                ).0,
                ..old(self)@
            }),
            events_view(final(events)@) == entities_dropped(
                old(self)@.state,
                events_view(old(events)@),
                gone@,
                gone@.len() as int,
            ).1,
            final(self)@.state.next_uid == old(self)@.state.next_uid,
            old(self)@.wf() ==> final(self)@.wf(),
            final(self)@.world == old(self)@.world,
    {
        let mut k: usize = 0;
        while k < gone.len()
            invariant
                old(self)@.wf() ==> self@.wf(),
                self@.world == old(self)@.world,
                k <= gone.len(),
                self@.state.next_uid == old(self)@.state.next_uid,
                self@ == (ServerView {
                    state: entities_dropped(
                        old(self)@.state,
                        events_view(old(events)@),
                        gone@,
                        k as int,
                    ).0,
                    ..old(self)@
                }),
                events_view(events@) == entities_dropped(
                    old(self)@.state,
                    events_view(old(events)@),
                    gone@,
                    k as int,
                ).1,
            decreases gone.len() - k,
        {
            let uid = gone[k];
            self.state.delete_entity(uid);
            push_event(events, Event::ClientDisconnected { entity: uid });
            k = k + 1;
        }
    }

    /// Asks for a chunk to be generated, unless it was asked for and did not
    /// come back yet. Tells whether a worker is to make it.
    pub fn generate_chunk(&mut self, key: ChunkKey) -> (dispatch: bool)
        ensures
            dispatch == !old(self)@.pending.contains(key),
            final(self)@ == (ServerView { pending: old(self)@.pending.insert(key), ..old(self)@ }),
            old(self)@.wf() ==> final(self)@.wf(),
            final(self)@.world == old(self)@.world,
    {
        self.pending_chunks.insert(key)
    }

    /// Asks the workers for the chunks that clients asked for, each key
    /// once.
    fn request_chunks(&mut self, events: &mut Vec<Event>, keys: &Vec<ChunkKey>)
        ensures
            final(self)@ == (ServerView {
                pending: chunks_requested(
                    old(self)@.pending,
                    events_view(old(events)@),
                    keys@,
                    keys@.len() as int,
                ).0,
                ..old(self)@
            }),
            events_view(final(events)@) == chunks_requested(
                old(self)@.pending,
                events_view(old(events)@),
                keys@,
                keys@.len() as int,
            ).1,
            final(self)@.state.next_uid == old(self)@.state.next_uid,
            old(self)@.wf() ==> final(self)@.wf(),
            final(self)@.world == old(self)@.world,
    {
        let mut k: usize = 0;
        assert(self@ == (ServerView { pending: old(self)@.pending, ..old(self)@ }));
        while k < keys.len()
            invariant
                k <= keys.len(),
                self@ == (ServerView {
                    pending: chunks_requested(
                        old(self)@.pending,
                        events_view(old(events)@),
                        keys@,
                        k as int,
                    ).0,
                    ..old(self)@
                }),
                events_view(events@) == chunks_requested(
                    old(self)@.pending,
                    events_view(old(events)@),
                    keys@,
                    k as int,
                ).1,
            decreases keys.len() - k,
        {
            let key = keys[k];
            let ghost before = self@.pending;
            if self.generate_chunk(key) {
                push_event(events, Event::GenerateChunk { key });
            } else {
                assert(before.insert(key) =~= before);
            }
            k = k + 1;
        }
    }

    /// Puts the block edits that clients asked for down for the next tick.
    fn set_blocks(&mut self, edits: &Vec<(BlockPos, Block)>)
        ensures
            final(self)@ == (ServerView {
                state: StateView {
                    block_change: blocks_set(
                        old(self)@.state.block_change,
                        edits@,
                        edits@.len() as int,
                    ),
                    ..old(self)@.state
                },
                ..old(self)@
            }),
            final(self)@.state.next_uid == old(self)@.state.next_uid,
            old(self)@.wf() ==> final(self)@.wf(),
            final(self)@.world == old(self)@.world,
    {
        let mut k: usize = 0;
        while k < edits.len()
            invariant
                k <= edits.len(),
                self@ == (ServerView {
                    state: StateView {
                        block_change: blocks_set(old(self)@.state.block_change, edits@, k as int),
                        ..old(self)@.state
                    },
                    ..old(self)@
                }),
            decreases edits.len() - k,
        {
            let (pos, block) = edits[k];
            self.state.set_block(pos, block);
            k = k + 1;
        }
    }

    /// Handles the messages of all sessions.
    pub fn handle_new_messages(&mut self) -> (r: Result<Vec<Event>, crate::event::Error>)
        ensures
            r is Ok,
            (final(self)@, events_view(r->Ok_0@)) == messages_handled(old(self)@),
            final(self)@.state.next_uid == old(self)@.state.next_uid,
            old(self)@.wf() ==> final(self)@.wf(),
            final(self)@.world == old(self)@.world,
    {
        let mut deferred = Deferred::new();
        let mut marks: Vec<bool> = Vec::new();
        let n = self.clients.len();
        let mut i: usize = 0;
        while i < n
            invariant
                old(self)@.wf() ==> self@.wf(),
                self@.world == old(self)@.world,
                i <= n,
                n == old(self)@.clients.len(),
                self@.clients.len() == n,
                marks.len() == i,
                self@.state.next_uid == old(self)@.state.next_uid,
                (self@, deferred@, marks@) == clients_handled(
                    old(self)@,
                    DeferredView::empty(),
                    i as int,
                ),
            decreases n - i,
        {
            let mark = self.handle_client(&mut deferred, i);
            marks.push(mark);
            i = i + 1;
        }
        self.remove_marked(&marks);
        let Deferred { chats, disconnected, requested_chunks, modified_blocks, events } = deferred;
        let mut events = events;
        self.pass_chats(&mut events, chats);
        self.drop_entities(&mut events, &disconnected);
        self.request_chunks(&mut events, &requested_chunks);
        self.set_blocks(&modified_blocks);
        Ok(events)
    }
}

/// Sessions of which no two share an entity stay so when some leave.
pub proof fn lemma_kept_entities_rise(
    clients: Seq<ClientView>,
    marks: Seq<bool>,
    n: int,
    next_uid: u64,
)
    requires
        entities_rise(clients, next_uid),
        0 <= n <= clients.len(),
        n <= marks.len(),
    ensures
        entities_rise(kept(clients, marks, n), next_uid),
        forall|k: int|
            0 <= k < kept(clients, marks, n).len() ==> exists|j: int|
                0 <= j < n && clients[j] == #[trigger] kept(clients, marks, n)[k],
    decreases n,
{
    if n > 0 {
        lemma_kept_entities_rise(clients, marks, n - 1, next_uid);
        let before = kept(clients, marks, n - 1);
        let now = kept(clients, marks, n);
        assert forall|k: int| 0 <= k < now.len() implies exists|j: int|
            0 <= j < n && clients[j] == #[trigger] now[k] by {
            if k < before.len() {
                let j = choose|j: int| 0 <= j < n - 1 && clients[j] == before[k];
                assert(clients[j] == now[k]);
            } else {
                assert(clients[n - 1] == now[k]);
            }
        }
        assert forall|a: int, b: int| 0 <= a < b < now.len() implies (#[trigger] now[a]).entity < (
        #[trigger] now[b]).entity by {
            if b < before.len() {
                assert(before[a].entity < before[b].entity);
            } else {
                let j = choose|j: int| 0 <= j < n - 1 && clients[j] == before[a];
                assert(clients[j].entity < clients[n - 1].entity);
            }
        }
        assert forall|a: int| 0 <= a < now.len() implies (#[trigger] now[a]).entity < next_uid by {
            let j = choose|j: int| 0 <= j < n && clients[j] == now[a];
            assert(clients[j].entity < next_uid);
        }
    }
}

} // verus!
