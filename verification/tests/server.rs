use veloren_server::client::PostBox;
use veloren_server::comp::{Body, Player};
use veloren_server::event::{Error, Event, GeneratedChunk, Input, PostError};
use veloren_server::msg::{
    ChatType, ClientMsg, ClientState, RequestStateError, ServerError, ServerInfo, ServerMsg,
};
use veloren_server::provider::{LoadError, WorldSource};
use veloren_server::server::Server;
use veloren_server::settings::ServerSettings;
use veloren_server::spawn::NpcRolls;
use veloren_server::stats::{Dying, HealthSource};
use veloren_server::terrain::{Block, Chunk, ChunkMeta};
use veloren_server::world::{ChunkSupplement, NpcInfo};

fn server_with(settings: ServerSettings) -> Server {
    match Server::new(settings, Err(LoadError::MissingChunks), "abc".to_string()) {
        Ok(server) => server,
        Err(_) => panic!("a server can always be made"),
    }
}

fn server() -> Server {
    server_with(ServerSettings::default())
}

fn quiet() -> Input {
    Input { postoffice_error: None, new_postboxes: vec![], generated: None }
}

fn connection(id: u64, msgs: Vec<ClientMsg>) -> Input {
    let mut postbox = PostBox::new(id);
    postbox.inbound = msgs;
    Input { postoffice_error: None, new_postboxes: vec![postbox], generated: None }
}

fn tick(server: &mut Server, input: Input, dt: u64) -> Vec<Event> {
    match server.tick(input, dt) {
        Ok(events) => events,
        Err(_) => panic!("the listener did not fail"),
    }
}

fn send(server: &mut Server, client: usize, msg: ClientMsg) {
    server.clients.clients[client].postbox.inbound.push(msg);
}

fn sent(server: &mut Server, client: usize) -> Vec<ServerMsg> {
    std::mem::take(&mut server.clients.clients[client].postbox.outbound)
}

fn register(alias: &str, password: &str) -> ClientMsg {
    ClientMsg::Register {
        player: Player::new(alias.to_string(), None),
        password: password.to_string(),
    }
}

fn character(name: &str) -> ClientMsg {
    ClientMsg::Character { name: name.to_string(), body: Body::Humanoid }
}

fn refused(error: RequestStateError, state: ClientState) -> ServerMsg {
    ServerMsg::StateAnswer(Err((error, state)))
}

fn chunk() -> Chunk {
    Chunk::new(10, Block::new(2, 200, 220, 255), Block::empty(), ChunkMeta::void())
}

fn info() -> ServerInfo {
    ServerInfo {
        name: "Veloren Alpha".to_string(),
        description: "This is the best Veloren server.".to_string(),
        git_hash: "abc".to_string(),
    }
}

/// A server with one player who has entered the world as `alias` and sees
/// `vd` chunks far. Its mailbox is empty.
fn server_with_player(alias: &str, vd: u32) -> Server {
    let mut server = server();
    tick(&mut server, connection(1, vec![register(alias, "pw"), character(alias)]), 10);
    send(&mut server, 0, ClientMsg::SetViewDistance(vd));
    tick(&mut server, quiet(), 10);
    sent(&mut server, 0);
    server
}

#[test]
fn new_server_is_empty_and_starts_its_day() {
    let server = server();
    assert_eq!(server.clients.len(), 0);
    assert_eq!(server.state().entities.len(), 0);
    assert_eq!(server.state().get_time(), 0);
    assert_eq!(server.state().get_time_of_day(), 32_400_000);
    assert_eq!(server.world().world, WorldSource::Generated(1337));
    assert_eq!(server.server_info, info());
    assert_eq!(server.spawn_point, (16_384, 16_384, 512));
}

#[test]
fn register_then_enter_character() {
    let mut server = server();
    let events = tick(&mut server, connection(7, vec![register("Bob", "x")]), 10);
    assert_eq!(events, vec![Event::ClientConnected { entity: 0 }]);
    assert_eq!(server.clients.len(), 1);
    assert_eq!(server.clients.clients[0].client_state, ClientState::Registered);
    assert_eq!(server.clients.clients[0].entity, 0);
    assert_eq!(server.clients.clients[0].postbox.id, 7);
    assert_eq!(
        sent(&mut server, 0),
        vec![
            ServerMsg::InitialSync { entity_uid: 0, server_info: info() },
            ServerMsg::StateAnswer(Ok(ClientState::Registered)),
            ServerMsg::EcsSync,
        ]
    );
    assert_eq!(
        server.state().entities[0].player,
        Some(Player::new("Bob".to_string(), None))
    );

    send(&mut server, 0, character("Bob"));
    let events = tick(&mut server, quiet(), 10);
    assert_eq!(events, vec![]);
    assert_eq!(server.clients.clients[0].client_state, ClientState::Character);
    let entity = &server.state().entities[0];
    assert_eq!(entity.pos, Some((16_384, 16_384, 512)));
    assert_eq!(entity.body, Some(Body::Humanoid));
    assert_eq!(entity.stats.as_ref().map(|s| s.name.clone()), Some("Bob".to_string()));
    assert_eq!(entity.stats.as_ref().map(|s| s.health.current()), Some(100));
    assert!(entity.has_inventory);
    assert!(!entity.admin);
    let out = sent(&mut server, 0);
    assert_eq!(out[0], ServerMsg::StateAnswer(Ok(ClientState::Character)));
    assert_eq!(
        out[1],
        ServerMsg::ChatMsg {
            chat_type: ChatType::Broadcast,
            message: "[Bob] is now online.".to_string(),
        }
    );
    assert_eq!(out[2], ServerMsg::EcsSync);
}

#[test]
fn listener_failure_aborts_the_tick() {
    let mut server = server();
    tick(&mut server, connection(1, vec![]), 10);
    let mut input = connection(2, vec![]);
    input.postoffice_error = Some(PostError::Io);
    let before_time = server.state().get_time();
    assert_eq!(server.tick(input, 10), Err(Error::NetworkErr(PostError::Io)));
    assert_eq!(server.clients.len(), 1);
    assert_eq!(server.state().get_time(), before_time);
    assert_eq!(Error::from(PostError::Bincode), Error::NetworkErr(PostError::Bincode));
}

#[test]
fn full_server_tells_new_connections_so() {
    let mut settings = ServerSettings::default();
    settings.max_players = 1;
    let mut server = server_with(settings);
    let events = tick(&mut server, connection(1, vec![]), 10);
    assert_eq!(events, vec![Event::ClientConnected { entity: 0 }]);
    sent(&mut server, 0);
    let events = tick(&mut server, connection(2, vec![register("Eve", "pw")]), 10);
    assert_eq!(events, vec![]);
    assert_eq!(server.clients.len(), 1);
    assert_eq!(server.clients.clients[0].postbox.id, 1);
    assert_eq!(server.state().entities.len(), 1);
    assert_eq!(server.state().next_uid, 1);
    assert_eq!(sent(&mut server, 0), vec![]);
    assert_eq!(server.closed.len(), 1);
    assert_eq!(server.closed[0].id, 2);
    assert_eq!(server.closed[0].outbound, vec![ServerMsg::Error(ServerError::TooManyPlayers)]);
    assert_eq!(server.accounts.accounts, vec![]);
}

#[test]
fn server_without_room_registers_nobody() {
    let mut settings = ServerSettings::default();
    settings.max_players = 0;
    let mut server = server_with(settings);
    let events = tick(&mut server, connection(1, vec![register("Eve", "pw")]), 10);
    assert_eq!(events, vec![]);
    assert_eq!(server.clients.len(), 0);
    assert_eq!(server.state().entities.len(), 0);
    assert_eq!(server.closed.len(), 1);
    assert_eq!(server.closed[0].outbound, vec![ServerMsg::Error(ServerError::TooManyPlayers)]);
}

#[test]
fn room_that_comes_free_is_given_to_the_next_connection() {
    let mut settings = ServerSettings::default();
    settings.max_players = 1;
    let mut server = server_with(settings);
    tick(&mut server, connection(1, vec![]), 10);
    send(&mut server, 0, ClientMsg::Disconnect);
    tick(&mut server, quiet(), 10);
    assert_eq!(server.clients.len(), 0);
    let events = tick(&mut server, connection(2, vec![]), 10);
    assert_eq!(events, vec![Event::ClientConnected { entity: 1 }]);
    assert_eq!(server.clients.len(), 1);
}

#[test]
fn requests_outside_the_table_get_typed_errors_and_the_session_goes_on() {
    let mut server = server();
    tick(
        &mut server,
        connection(
            1,
            vec![
                ClientMsg::RequestState(ClientState::Registered),
                ClientMsg::RequestState(ClientState::Spectator),
                ClientMsg::RequestState(ClientState::Character),
                ClientMsg::RequestState(ClientState::Dead),
                ClientMsg::RequestState(ClientState::Connected),
                character("Eve"),
                ClientMsg::Controller,
                ClientMsg::ChatMsg { chat_type: ChatType::Chat, message: "hi".to_string() },
                ClientMsg::PlayerPhysics { pos: (0, 0, 0) },
                ClientMsg::TerrainChunkRequest { key: (0, 0) },
                ClientMsg::Ping,
                register("Eve", "pw"),
            ],
        ),
        10,
    );
    let c = ClientState::Connected;
    assert_eq!(
        sent(&mut server, 0),
        vec![
            ServerMsg::InitialSync { entity_uid: 0, server_info: info() },
            refused(RequestStateError::WrongMessage, c),
            refused(RequestStateError::Impossible, c),
            refused(RequestStateError::WrongMessage, c),
            refused(RequestStateError::Impossible, c),
            refused(RequestStateError::Impossible, c),
            refused(RequestStateError::Impossible, c),
            refused(RequestStateError::Impossible, c),
            refused(RequestStateError::Impossible, c),
            refused(RequestStateError::Impossible, c),
            ServerMsg::Pong,
            ServerMsg::StateAnswer(Ok(ClientState::Registered)),
            ServerMsg::EcsSync,
        ]
    );
    assert_eq!(server.clients.clients[0].client_state, ClientState::Registered);
}

#[test]
fn states_are_requested_and_held() {
    let mut server = server();
    tick(&mut server, connection(1, vec![register("Eve", "pw")]), 10);
    sent(&mut server, 0);
    send(&mut server, 0, ClientMsg::RequestState(ClientState::Registered));
    send(&mut server, 0, ClientMsg::RequestState(ClientState::Spectator));
    send(&mut server, 0, ClientMsg::RequestState(ClientState::Spectator));
    send(&mut server, 0, register("Eve", "pw"));
    send(&mut server, 0, ClientMsg::RequestState(ClientState::Registered));
    send(&mut server, 0, character("Eve"));
    send(&mut server, 0, character("Eve"));
    send(&mut server, 0, ClientMsg::RequestState(ClientState::Spectator));
    tick(&mut server, quiet(), 10);
    let out = sent(&mut server, 0);
    assert_eq!(out[0], refused(RequestStateError::Already, ClientState::Registered));
    assert_eq!(out[1], ServerMsg::StateAnswer(Ok(ClientState::Spectator)));
    assert_eq!(out[2], refused(RequestStateError::Already, ClientState::Spectator));
    assert_eq!(out[3], refused(RequestStateError::Impossible, ClientState::Spectator));
    assert_eq!(out[4], ServerMsg::StateAnswer(Ok(ClientState::Registered)));
    assert_eq!(out[5], ServerMsg::StateAnswer(Ok(ClientState::Character)));
    assert_eq!(out[6], refused(RequestStateError::Already, ClientState::Character));
    assert_eq!(out[7], ServerMsg::StateAnswer(Ok(ClientState::Spectator)));
    assert_eq!(server.clients.clients[0].client_state, ClientState::Spectator);
}

#[test]
fn wrong_password_is_denied_and_the_session_goes_on() {
    let mut server = server();
    tick(&mut server, connection(1, vec![register("Bob", "x")]), 10);
    tick(&mut server, connection(2, vec![register("Bob", "y"), ClientMsg::Ping]), 10);
    assert_eq!(server.clients.clients[1].client_state, ClientState::Connected);
    assert_eq!(
        sent(&mut server, 1),
        vec![
            ServerMsg::InitialSync { entity_uid: 1, server_info: info() },
            refused(RequestStateError::Denied, ClientState::Connected),
            ServerMsg::Pong,
        ]
    );
    send(&mut server, 1, ClientMsg::Ping);
    send(&mut server, 1, register("Bob", "x"));
    tick(&mut server, quiet(), 10);
    assert_eq!(
        sent(&mut server, 1),
        vec![
            ServerMsg::Pong,
            ServerMsg::StateAnswer(Ok(ClientState::Registered)),
            ServerMsg::EcsSync,
        ]
    );
}

#[test]
fn disconnect_behind_a_denied_registration_is_heard() {
    let mut server = server();
    tick(&mut server, connection(1, vec![register("Bob", "x")]), 10);
    let events =
        tick(&mut server, connection(2, vec![register("Bob", "y"), ClientMsg::Disconnect]), 10);
    assert_eq!(
        events,
        vec![Event::ClientConnected { entity: 1 }, Event::ClientDisconnected { entity: 1 }]
    );
    assert_eq!(server.clients.len(), 1);
    assert_eq!(server.clients.clients[0].entity, 0);
    assert_eq!(server.state().find_entity(1), None);
    assert_eq!(server.closed.len(), 1);
    assert_eq!(server.closed[0].id, 2);
    assert_eq!(
        server.closed[0].outbound,
        vec![
            ServerMsg::InitialSync { entity_uid: 1, server_info: info() },
            refused(RequestStateError::Denied, ClientState::Connected),
            ServerMsg::Disconnect,
        ]
    );
}

#[test]
fn refused_registration_takes_no_alias() {
    let mut server = server();
    tick(&mut server, connection(1, vec![register("Bob", "x"), register("Zed", "mine")]), 10);
    assert_eq!(server.clients.clients[0].client_state, ClientState::Registered);
    assert_eq!(
        sent(&mut server, 0)[2],
        refused(RequestStateError::Impossible, ClientState::Registered)
    );
    assert_eq!(server.accounts.accounts, vec![("Bob".to_string(), "x".to_string())]);
    // a registration with a password that does not fit is impossible too
    // in that state, not denied
    send(&mut server, 0, register("Bob", "wrong"));
    tick(&mut server, connection(2, vec![register("Zed", "other")]), 10);
    assert_eq!(
        sent(&mut server, 0)[0],
        refused(RequestStateError::Impossible, ClientState::Registered)
    );
    assert_eq!(server.clients.clients[1].client_state, ClientState::Registered);
    assert_eq!(
        server.accounts.accounts,
        vec![("Bob".to_string(), "x".to_string()), ("Zed".to_string(), "other".to_string())]
    );
}

#[test]
fn alias_over_the_limit_is_impossible() {
    let mut server = server();
    let long = "a".repeat(33);
    tick(&mut server, connection(1, vec![register(&long, "x"), register(&"b".repeat(32), "x")]), 10);
    let out = sent(&mut server, 0);
    assert_eq!(out[1], refused(RequestStateError::Impossible, ClientState::Connected));
    assert_eq!(out[2], ServerMsg::StateAnswer(Ok(ClientState::Registered)));
    assert_eq!(server.accounts.accounts, vec![("b".repeat(32), "x".to_string())]);
}

#[test]
fn disconnect_tears_the_session_down() {
    let mut server = server_with_player("Bob", 3);
    tick(&mut server, connection(2, vec![register("Eve", "pw")]), 10);
    sent(&mut server, 0);
    sent(&mut server, 1);
    send(&mut server, 0, ClientMsg::Disconnect);
    let events = tick(&mut server, quiet(), 10);
    assert_eq!(events, vec![Event::ClientDisconnected { entity: 0 }]);
    assert_eq!(server.clients.len(), 1);
    assert_eq!(server.clients.clients[0].entity, 1);
    assert_eq!(server.state().find_entity(0), None);
    assert_eq!(server.closed.len(), 1);
    assert_eq!(server.closed[0].id, 1);
    assert_eq!(server.closed[0].outbound, vec![ServerMsg::Disconnect]);
    assert_eq!(
        sent(&mut server, 0),
        vec![
            ServerMsg::ChatMsg {
                chat_type: ChatType::Broadcast,
                message: "Bob went offline.".to_string(),
            },
            ServerMsg::EcsSync,
        ]
    );
}

#[test]
fn silent_session_is_pinged_and_then_dropped() {
    let mut server = server();
    tick(&mut server, connection(1, vec![]), 0);
    sent(&mut server, 0);
    tick(&mut server, quiet(), 10_000);
    // the clock moves after the sessions were looked at
    assert_eq!(sent(&mut server, 0), vec![]);
    tick(&mut server, quiet(), 1);
    assert_eq!(sent(&mut server, 0), vec![]);
    tick(&mut server, quiet(), 9_999);
    assert_eq!(sent(&mut server, 0), vec![ServerMsg::Ping]);
    let events = tick(&mut server, quiet(), 1);
    assert_eq!(events, vec![]);
    assert_eq!(server.clients.len(), 1);
    let events = tick(&mut server, quiet(), 1);
    assert_eq!(events, vec![Event::ClientDisconnected { entity: 0 }]);
    assert_eq!(server.clients.len(), 0);
    assert_eq!(server.state().entities.len(), 0);
}

#[test]
fn a_message_resets_the_silence() {
    let mut server = server();
    tick(&mut server, connection(1, vec![]), 0);
    tick(&mut server, quiet(), 15_000);
    send(&mut server, 0, ClientMsg::Pong);
    tick(&mut server, quiet(), 15_000);
    sent(&mut server, 0);
    let events = tick(&mut server, quiet(), 1);
    assert_eq!(events, vec![]);
    assert_eq!(server.clients.len(), 1);
    assert_eq!(sent(&mut server, 0), vec![ServerMsg::Ping]);
}

#[test]
fn failed_connection_is_dropped() {
    let mut server = server();
    tick(&mut server, connection(1, vec![]), 0);
    server.clients.clients[0].postbox.error = true;
    let events = tick(&mut server, quiet(), 1);
    assert_eq!(events, vec![Event::ClientDisconnected { entity: 0 }]);
    assert_eq!(server.clients.len(), 0);
}

#[test]
fn chunk_asked_for_many_times_is_generated_once_and_sent_once() {
    let mut server = server_with_player("Bob", 3);
    let key = (512, 512);
    for _ in 0..5 {
        send(&mut server, 0, ClientMsg::TerrainChunkRequest { key });
    }
    let events = tick(&mut server, quiet(), 10);
    assert_eq!(events, vec![Event::GenerateChunk { key }]);
    assert!(server.pending_chunks.contains(key));
    send(&mut server, 0, ClientMsg::TerrainChunkRequest { key });
    let events = tick(&mut server, quiet(), 10);
    assert_eq!(events, vec![]);
    sent(&mut server, 0);

    let mut input = quiet();
    input.generated =
        Some(GeneratedChunk { key, chunk: chunk(), supplement: ChunkSupplement::new() });
    tick(&mut server, input, 10);
    assert!(!server.pending_chunks.contains(key));
    assert!(server.state().terrain().contains_key(key));
    let updates: Vec<ServerMsg> = sent(&mut server, 0)
        .into_iter()
        .filter(|m| matches!(m, ServerMsg::TerrainChunkUpdate { .. }))
        .collect();
    assert_eq!(updates, vec![ServerMsg::TerrainChunkUpdate { key, chunk: chunk() }]);

    send(&mut server, 0, ClientMsg::TerrainChunkRequest { key });
    let events = tick(&mut server, quiet(), 10);
    assert_eq!(events, vec![]);
    assert_eq!(sent(&mut server, 0)[0], ServerMsg::TerrainChunkUpdate { key, chunk: chunk() });
}

#[test]
fn shutdown_tells_the_registered_sessions() {
    let mut server = server_with_player("Bob", 3);
    tick(&mut server, connection(2, vec![]), 10);
    sent(&mut server, 0);
    sent(&mut server, 1);
    assert_eq!(server.shutdown(), veloren_server::provider::SaveMsg::END);
    assert_eq!(sent(&mut server, 0), vec![ServerMsg::Shutdown]);
    assert_eq!(sent(&mut server, 1), vec![]);
}

#[test]
fn generate_chunk_asks_a_worker_once() {
    let mut server = server();
    assert!(server.generate_chunk((1, 2)));
    assert!(!server.generate_chunk((1, 2)));
    assert!(server.generate_chunk((2, 1)));
}

#[test]
fn chunk_that_nobody_waits_for_is_dropped() {
    let mut server = server_with_player("Bob", 3);
    let mut input = quiet();
    input.generated = Some(GeneratedChunk {
        key: (512, 512),
        chunk: chunk(),
        supplement: ChunkSupplement { npcs: vec![NpcInfo { pos: (0, 0, 0), boss: false }] },
    });
    let events = tick(&mut server, input, 10);
    assert_eq!(events, vec![]);
    assert!(!server.state().terrain().contains_key((512, 512)));
    assert_eq!(server.state().entities.len(), 1);
}

#[test]
fn chunks_out_of_every_view_are_dropped() {
    let mut server = server_with_player("Bob", 2);
    server.state_mut().insert_chunk((512, 512), chunk());
    server.state_mut().insert_chunk((516, 512), chunk());
    server.state_mut().insert_chunk((517, 512), chunk());
    server.state_mut().insert_chunk((0, 0), chunk());
    tick(&mut server, quiet(), 10);
    let mut keys = server.state().terrain().keys();
    keys.sort();
    assert_eq!(keys, vec![(512, 512), (516, 512)]);
}

#[test]
fn block_edits_need_the_right_to_build() {
    let mut server = server_with_player("Bob", 3);
    server.state_mut().insert_chunk((512, 512), chunk());
    let pos = (16_384, 16_385, 40);
    send(&mut server, 0, ClientMsg::PlaceBlock(pos, Block::new(7, 1, 1, 1)));
    tick(&mut server, quiet(), 10);
    assert_eq!(server.state().terrain().get(pos), Some(Block::empty()));
    sent(&mut server, 0);

    server.state_mut().entities[0].can_build = true;
    send(&mut server, 0, ClientMsg::PlaceBlock(pos, Block::new(7, 1, 1, 1)));
    send(&mut server, 0, ClientMsg::PlaceBlock(pos, Block::new(8, 2, 2, 2)));
    send(&mut server, 0, ClientMsg::BreakBlock((16_384, 16_384, 5)));
    tick(&mut server, quiet(), 10);
    assert_eq!(server.state().terrain().get(pos), Some(Block::new(8, 2, 2, 2)));
    assert_eq!(server.state().terrain().get((16_384, 16_384, 5)), Some(Block::empty()));
    let out = sent(&mut server, 0);
    let batches: Vec<&ServerMsg> =
        out.iter().filter(|m| matches!(m, ServerMsg::TerrainBlockUpdates(_))).collect();
    assert_eq!(batches.len(), 1);
    match batches[0] {
        ServerMsg::TerrainBlockUpdates(blocks) => {
            let mut entries = blocks.entries();
            entries.sort_by_key(|e| e.0);
            assert_eq!(
                entries,
                vec![((16_384, 16_384, 5), Block::empty()), (pos, Block::new(8, 2, 2, 2))]
            );
        }
        _ => unreachable!(),
    }
    // the edited chunk waits in the save buffer
    assert_eq!(server.world_provider.take_chunks().keys(), vec![(512, 512)]);
}

#[test]
fn chat_lines_carry_the_name_of_their_writer() {
    let mut settings = ServerSettings::default();
    settings.admins = vec!["Root".to_string()];
    let mut server = server_with(settings);
    tick(&mut server, connection(1, vec![register("Bob", "pw")]), 10);
    tick(&mut server, connection(2, vec![register("Root", "pw"), character("Root")]), 10);
    tick(&mut server, connection(3, vec![]), 10);
    sent(&mut server, 0);
    sent(&mut server, 1);
    sent(&mut server, 2);
    assert!(server.state().entities[1].admin);
    send(&mut server, 0, ClientMsg::ChatMsg { chat_type: ChatType::Chat, message: "hello".to_string() });
    send(&mut server, 1, ClientMsg::ChatMsg { chat_type: ChatType::Chat, message: "/".to_string() });
    send(&mut server, 1, ClientMsg::ChatMsg { chat_type: ChatType::Chat, message: "/tp Bob".to_string() });
    let events = tick(&mut server, quiet(), 10);
    assert_eq!(events, vec![Event::Chat { entity: Some(1), msg: "tp Bob".to_string() }]);
    let expected = vec![
        ServerMsg::ChatMsg { chat_type: ChatType::Chat, message: "[Bob] hello".to_string() },
        ServerMsg::ChatMsg { chat_type: ChatType::Chat, message: "[ADMIN][Root] /".to_string() },
        ServerMsg::EcsSync,
    ];
    assert_eq!(sent(&mut server, 0), expected);
    assert_eq!(sent(&mut server, 1), expected);
    assert_eq!(sent(&mut server, 2), vec![]);
}

#[test]
fn view_distance_is_set_for_characters_only() {
    let mut server = server();
    tick(&mut server, connection(1, vec![register("Bob", "pw"), ClientMsg::SetViewDistance(9)]), 10);
    assert_eq!(server.state().entities[0].player.as_ref().map(|p| p.view_distance), Some(None));
    send(&mut server, 0, character("Bob"));
    send(&mut server, 0, ClientMsg::SetViewDistance(9));
    tick(&mut server, quiet(), 10);
    assert_eq!(server.state().entities[0].player.as_ref().map(|p| p.view_distance), Some(Some(9)));
}

#[test]
fn inventory_and_controller_messages_become_events() {
    let mut server = server_with_player("Bob", 3);
    send(&mut server, 0, ClientMsg::SwapInventorySlots(1, 2));
    send(&mut server, 0, ClientMsg::DropInventorySlot(4));
    send(&mut server, 0, ClientMsg::PickUp(77));
    send(&mut server, 0, ClientMsg::Controller);
    send(&mut server, 0, ClientMsg::PlayerPhysics { pos: (1, 2, 3) });
    let events = tick(&mut server, quiet(), 10);
    assert_eq!(
        events,
        vec![
            Event::SwapInventorySlots { entity: 0, a: 1, b: 2 },
            Event::DropInventorySlot { entity: 0, slot: 4 },
            Event::PickUp { entity: 0, item: 77 },
            Event::Controller { entity: 0 },
            Event::Physics { entity: 0 },
        ]
    );
    assert_eq!(server.state().entities[0].pos, Some((1, 2, 3)));
    let out = sent(&mut server, 0);
    assert!(out.contains(&ServerMsg::InventoryUpdate));
    assert!(!server.state().entities[0].inventory_update);
}

#[test]
fn physics_go_to_the_watchers_but_not_to_the_owner() {
    let mut server = server_with_player("Bob", 3);
    tick(&mut server, connection(2, vec![register("Eve", "pw"), character("Eve")]), 10);
    send(&mut server, 1, ClientMsg::SetViewDistance(3));
    tick(&mut server, quiet(), 10);
    sent(&mut server, 0);
    sent(&mut server, 1);

    server.state_mut().entities[1].pos_changed = true;
    server.state_mut().entities[1].vel.changed = true;
    tick(&mut server, quiet(), 10);
    assert_eq!(
        sent(&mut server, 0),
        vec![
            ServerMsg::EcsSync,
            ServerMsg::EntityPos { entity: 1 },
            ServerMsg::EntityVel { entity: 1 },
            ServerMsg::TerrainBlockUpdates(veloren_server::collections::BlockMap::new()),
        ]
    );
    assert_eq!(
        sent(&mut server, 1),
        vec![
            ServerMsg::EcsSync,
            ServerMsg::TerrainBlockUpdates(veloren_server::collections::BlockMap::new()),
        ]
    );
    assert!(!server.state().entities[1].pos_changed);

    // with the mark set, the owner is told too
    server.state_mut().entities[1].ori.changed = true;
    server.state_mut().entities[1].force_update = true;
    tick(&mut server, quiet(), 10);
    assert!(sent(&mut server, 0).contains(&ServerMsg::EntityOri { entity: 1 }));
    assert!(sent(&mut server, 1).contains(&ServerMsg::EntityOri { entity: 1 }));
    assert!(!server.state().entities[1].force_update);

    // out of view, nobody is told
    server.state_mut().entities[1].pos = Some((0, 0, 0));
    server.state_mut().entities[1].pos_changed = true;
    tick(&mut server, quiet(), 10);
    assert!(!sent(&mut server, 0).contains(&ServerMsg::EntityPos { entity: 1 }));
    assert!(server.client_sees(0, (16_384 + 5 * 32, 16_384, 0)));
    assert!(!server.client_sees(0, (16_384 + 6 * 32, 16_384, 0)));
    assert!(!server.client_sees(99, (16_384, 16_384, 0)));
}

#[test]
fn death_is_told_and_the_attacker_is_rewarded() {
    let mut server = server_with_player("Bob", 3);
    tick(&mut server, connection(2, vec![register("Eve", "pw"), character("Eve")]), 10);
    sent(&mut server, 0);
    sent(&mut server, 1);
    server.state_mut().entities[0].dying = Some(Dying { cause: HealthSource::Attack { by: 1 } });
    tick(&mut server, quiet(), 10);
    assert_eq!(server.clients.clients[0].client_state, ClientState::Dead);
    let out = sent(&mut server, 0);
    assert_eq!(out[0], ServerMsg::EcsSync);
    assert_eq!(
        out[1],
        ServerMsg::ChatMsg { chat_type: ChatType::Kill, message: "Bob was killed by Eve".to_string() }
    );
    assert_eq!(out[2], ServerMsg::ForceState(ClientState::Dead));
    // 100 / 10 + 1 * 10
    assert_eq!(server.state().entities[1].stats.as_ref().map(|s| s.exp.current()), Some(20));
    assert_eq!(server.state().entities[0].dying, None);

    server.state_mut().entities[0].dying = Some(Dying { cause: HealthSource::World });
    tick(&mut server, quiet(), 10);
    assert!(sent(&mut server, 1).contains(&ServerMsg::ChatMsg {
        chat_type: ChatType::Kill,
        message: "Bob died".to_string(),
    }));
}

#[test]
fn dying_entity_without_a_session_is_removed() {
    let mut server = server_with_player("Bob", 3);
    server.state_mut().insert_chunk((512, 512), chunk());
    let uid = server.create_npc((16_384, 16_384, 20), "Wolf".to_string(), Body::QuadrupedMedium);
    assert_eq!(uid, 1);
    server.state_mut().entities[1].dying = Some(Dying { cause: HealthSource::Attack { by: 0 } });
    let events = tick(&mut server, quiet(), 10);
    assert_eq!(events, vec![Event::EntityDeleted { entity: 1 }]);
    assert_eq!(server.state().entities.len(), 1);
    // 100 / 10 + 1 * 10
    assert_eq!(server.state().entities[0].stats.as_ref().map(|s| s.exp.current()), Some(20));
}

#[test]
fn respawn_revives_and_lifts_the_entity() {
    let mut server = server_with_player("Bob", 3);
    server.state_mut().entities[0].dying = Some(Dying { cause: HealthSource::Suicide });
    tick(&mut server, quiet(), 10);
    sent(&mut server, 0);
    if let Some(stats) = &mut server.state_mut().entities[0].stats {
        stats.health.set_to(0, HealthSource::Suicide);
        stats.is_dead = true;
    }
    server.state_mut().entities[0].respawning = true;
    let events = tick(&mut server, quiet(), 10);
    assert_eq!(events, vec![Event::Respawned { entity: 0 }]);
    assert_eq!(server.clients.clients[0].client_state, ClientState::Character);
    let entity = &server.state().entities[0];
    assert_eq!(entity.pos, Some((16_384, 16_384, 532)));
    assert_eq!(entity.stats.as_ref().map(|s| s.health.current()), Some(100));
    assert_eq!(entity.stats.as_ref().map(|s| s.is_dead), Some(false));
    assert!(!entity.respawning);
    let out = sent(&mut server, 0);
    assert_eq!(out[1], ServerMsg::StateAnswer(Ok(ClientState::Character)));
    // the owner is told of the lift
    assert!(out.contains(&ServerMsg::EntityPos { entity: 0 }));
}

#[test]
fn creatures_off_the_loaded_terrain_are_removed() {
    let mut server = server_with_player("Bob", 3);
    server.state_mut().insert_chunk((512, 512), chunk());
    let inside = server.create_npc((16_384, 16_390, 20), "Wolf".to_string(), Body::QuadrupedMedium);
    let outside = server.create_npc((0, 0, 20), "Wolf".to_string(), Body::QuadrupedMedium);
    let object = server.create_object((0, 0, 20));
    server.state_mut().entities[1].agent = true;
    server.state_mut().entities[2].agent = true;
    let events = tick(&mut server, quiet(), 10);
    assert_eq!(events, vec![Event::EntityDeleted { entity: outside }]);
    assert_eq!(server.state().find_entity(inside), Some(1));
    assert_eq!(server.state().find_entity(object), Some(2));
    assert_eq!(server.state().entities[2].body, Some(Body::Object));
}

#[test]
fn creatures_are_spawned_as_the_draws_say() {
    let mut server = server();
    let mut events = vec![];
    let wolf = NpcRolls { humanoid: false, boss_humanoid: false, health: 0 };
    server.spawn_npc(&mut events, &NpcInfo { pos: (1, 2, 3), boss: false }, wolf);
    let boss = NpcRolls { humanoid: false, boss_humanoid: true, health: 1234 };
    server.spawn_npc(&mut events, &NpcInfo { pos: (4, 5, 6), boss: true }, boss);
    let wolf_boss = NpcRolls { humanoid: false, boss_humanoid: false, health: 399 };
    server.spawn_npc(&mut events, &NpcInfo { pos: (7, 8, 9), boss: true }, wolf_boss);
    assert_eq!(
        events,
        vec![
            Event::NpcSpawned { entity: 0, boss: false },
            Event::NpcSpawned { entity: 1, boss: true },
            Event::NpcSpawned { entity: 2, boss: true },
        ]
    );
    let entities = &server.state().entities;
    assert_eq!(entities[0].pos, Some((1, 2, 3)));
    assert_eq!(entities[0].body, Some(Body::QuadrupedMedium));
    assert_eq!(entities[0].stats.as_ref().map(|s| s.name.clone()), Some("Wolf".to_string()));
    assert_eq!(entities[0].stats.as_ref().map(|s| s.health.maximum()), Some(100));
    assert!(entities[0].agent);
    assert_eq!(entities[1].body, Some(Body::Humanoid));
    assert_eq!(entities[1].stats.as_ref().map(|s| s.name.clone()), Some("Humanoid".to_string()));
    // 500 + 1234 % 400
    assert_eq!(entities[1].stats.as_ref().map(|s| s.health.maximum()), Some(534));
    assert_eq!(entities[1].stats.as_ref().map(|s| s.health.current()), Some(534));
    assert_eq!(entities[2].body, Some(Body::QuadrupedMedium));
    assert_eq!(entities[2].stats.as_ref().map(|s| s.health.maximum()), Some(899));
}

#[test]
fn generated_chunk_brings_its_creatures() {
    let mut server = server_with_player("Bob", 3);
    let key = (513, 512);
    assert!(server.generate_chunk(key));
    let mut input = quiet();
    input.generated = Some(GeneratedChunk {
        key,
        chunk: chunk(),
        supplement: ChunkSupplement {
            npcs: vec![
                NpcInfo { pos: (513 * 32, 512 * 32, 30), boss: true },
                NpcInfo { pos: (513 * 32 + 1, 512 * 32, 30), boss: false },
            ],
        },
    });
    let events = tick(&mut server, input, 10);
    assert_eq!(
        events,
        vec![
            Event::NpcSpawned { entity: 1, boss: true },
            Event::NpcSpawned { entity: 2, boss: false },
        ]
    );
    let boss = &server.state().entities[1];
    let health = boss.stats.as_ref().map(|s| s.health.maximum()).unwrap_or(0);
    assert!(500 <= health && health < 900);
    assert_eq!(server.state().entities[2].stats.as_ref().map(|s| s.health.maximum()), Some(100));
    let out = sent(&mut server, 0);
    assert!(out.contains(&ServerMsg::EntityPos { entity: 1 }));
    assert!(out.contains(&ServerMsg::EntityPos { entity: 2 }));
}

#[test]
fn changed_chunks_go_to_the_players_who_see_them() {
    let mut server = server_with_player("Bob", 2);
    server.state_mut().insert_chunk((512, 512), chunk());
    server.state_mut().insert_chunk((512, 512), chunk());
    server.state_mut().insert_chunk((0, 0), chunk());
    server.state_mut().insert_chunk((0, 0), chunk());
    tick(&mut server, quiet(), 10);
    let updates: Vec<ServerMsg> = sent(&mut server, 0)
        .into_iter()
        .filter(|m| matches!(m, ServerMsg::TerrainChunkUpdate { .. }))
        .collect();
    assert_eq!(updates, vec![ServerMsg::TerrainChunkUpdate { key: (512, 512), chunk: chunk() }]);
    // the record of changes is empty after the tick
    assert_eq!(server.state().terrain_changes().modified_chunks.keys(), vec![]);
    assert_eq!(server.state().terrain_changes().new_chunks.keys(), vec![]);
}

#[test]
fn server_cleanup_empties_the_record_of_changes() {
    let mut server = server();
    server.state_mut().insert_chunk((0, 0), chunk());
    server.cleanup();
    assert_eq!(server.state().terrain_changes().new_chunks.keys(), vec![]);
}
