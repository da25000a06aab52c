use veloren_server::client::PostBox;
use veloren_server::comp::{Body, Player};
use veloren_server::event::Event;
use veloren_server::handle::{offline_line, online_line, ChatLine, Deferred};
use veloren_server::msg::{ChatType, ClientMsg, ClientState, RequestStateError, ServerMsg};
use veloren_server::provider::LoadError;
use veloren_server::server::Server;
use veloren_server::settings::ServerSettings;
use veloren_server::terrain::{Block, Chunk, ChunkMeta};

fn server_with_clients(n: u64) -> Server {
    let mut server =
        match Server::new(ServerSettings::default(), Err(LoadError::MissingChunks), String::new()) {
            Ok(server) => server,
            Err(_) => panic!("a server can always be made"),
        };
    let mut postboxes = vec![];
    for id in 0..n {
        postboxes.push(PostBox::new(id));
    }
    assert!(server.handle_new_connections(postboxes).is_ok());
    for client in server.clients.clients.iter_mut() {
        client.postbox.outbound.clear();
    }
    server
}

#[test]
fn lines_for_players_who_come_and_go() {
    assert_eq!(
        online_line(&"Bob".to_string()),
        ChatLine {
            entity: None,
            chat_type: ChatType::Broadcast,
            message: "[Bob] is now online.".to_string(),
        }
    );
    assert_eq!(
        offline_line(&"Bob".to_string()),
        ChatLine {
            entity: None,
            chat_type: ChatType::Broadcast,
            message: "Bob went offline.".to_string(),
        }
    );
}

#[test]
fn new_connections_get_entities_in_order() {
    let mut server = server_with_clients(0);
    let events = server.handle_new_connections(vec![PostBox::new(10), PostBox::new(11)]);
    assert_eq!(
        events,
        Ok(vec![Event::ClientConnected { entity: 0 }, Event::ClientConnected { entity: 1 }])
    );
    assert_eq!(server.clients.clients[1].entity, 1);
    assert_eq!(server.clients.clients[1].postbox.id, 11);
    assert_eq!(server.state().entities.len(), 2);
    assert_eq!(server.state().next_uid, 2);
}

#[test]
fn one_message_is_judged_and_carried_out() {
    let mut server = server_with_clients(2);
    let mut deferred = Deferred::new();
    assert!(!server.handle_message(&mut deferred, 1, ClientMsg::Ping));
    assert!(server.handle_message(&mut deferred, 1, ClientMsg::Disconnect));
    assert!(!server.handle_message(&mut deferred, 1, ClientMsg::Controller));
    let gone = server.handle_message(
        &mut deferred,
        1,
        ClientMsg::Register {
            player: Player::new("Eve".to_string(), None),
            password: "pw".to_string(),
        },
    );
    assert!(!gone);
    let gone = server.handle_message(
        &mut deferred,
        0,
        ClientMsg::Register {
            player: Player::new("Eve".to_string(), None),
            password: "other".to_string(),
        },
    );
    assert!(!gone);
    assert_eq!(
        server.clients.clients[1].postbox.outbound,
        vec![
            ServerMsg::Pong,
            ServerMsg::StateAnswer(Err((RequestStateError::Impossible, ClientState::Connected))),
            ServerMsg::StateAnswer(Ok(ClientState::Registered)),
        ]
    );
    assert_eq!(
        server.clients.clients[0].postbox.outbound,
        vec![ServerMsg::StateAnswer(Err((RequestStateError::Denied, ClientState::Connected)))]
    );
    assert_eq!(deferred, Deferred::new());
}

#[test]
fn registration_tells_the_physics_of_every_entity() {
    let mut server = server_with_clients(1);
    server.create_npc((1, 1, 1), "Wolf".to_string(), Body::QuadrupedMedium);
    server.create_object((2, 2, 2));
    server.state_mut().entities[2].ori.present = false;
    server.initialize_player(0, Player::new("Bob".to_string(), None));
    assert_eq!(
        server.clients.clients[0].postbox.outbound,
        vec![
            ServerMsg::EntityPos { entity: 1 },
            ServerMsg::EntityVel { entity: 1 },
            ServerMsg::EntityOri { entity: 1 },
            ServerMsg::EntityActionState { entity: 1 },
            ServerMsg::EntityPos { entity: 2 },
            ServerMsg::EntityVel { entity: 2 },
            ServerMsg::EntityActionState { entity: 2 },
            ServerMsg::StateAnswer(Ok(ClientState::Registered)),
        ]
    );
    assert_eq!(server.state().entities[0].player, Some(Player::new("Bob".to_string(), None)));
}

#[test]
fn messages_of_a_session_are_handled_in_order() {
    let mut server = server_with_clients(1);
    let mut deferred = Deferred::new();
    let gone = server.handle_messages(
        &mut deferred,
        0,
        vec![
            ClientMsg::Register {
                player: Player::new("Bob".to_string(), None),
                password: "pw".to_string(),
            },
            ClientMsg::Character { name: "Bob".to_string(), body: Body::Humanoid },
            ClientMsg::ChatMsg { chat_type: ChatType::Chat, message: "hi".to_string() },
            ClientMsg::TerrainChunkRequest { key: (1, 1) },
            ClientMsg::Disconnect,
            ClientMsg::Ping,
        ],
    );
    assert!(gone);
    assert_eq!(deferred.chats.len(), 2);
    assert_eq!(deferred.chats[0], online_line(&"Bob".to_string()));
    assert_eq!(
        deferred.chats[1],
        ChatLine { entity: Some(0), chat_type: ChatType::Chat, message: "hi".to_string() }
    );
    assert_eq!(deferred.requested_chunks, vec![(1, 1)]);
    assert_eq!(deferred.disconnected, Vec::<u64>::new());
    assert_eq!(server.clients.clients[0].postbox.outbound.last(), Some(&ServerMsg::Pong));
}

#[test]
fn look_at_a_session_that_sent_nothing() {
    let mut server = server_with_clients(2);
    let mut deferred = Deferred::new();
    server.state_mut().time = 10_000;
    assert!(!server.handle_client(&mut deferred, 0));
    assert_eq!(server.clients.clients[0].postbox.outbound, vec![]);
    server.state_mut().time = 10_001;
    assert!(!server.handle_client(&mut deferred, 0));
    assert_eq!(server.clients.clients[0].postbox.outbound, vec![ServerMsg::Ping]);
    server.state_mut().time = 20_000;
    assert!(!server.handle_client(&mut deferred, 1));
    server.state_mut().time = 20_001;
    assert!(server.handle_client(&mut deferred, 1));
    assert_eq!(
        server.clients.clients[1].postbox.outbound,
        vec![ServerMsg::Ping, ServerMsg::Disconnect]
    );
    assert_eq!(deferred.disconnected, vec![1]);
    server.remove_marked(&vec![false, true]);
    assert_eq!(server.clients.len(), 1);
    assert_eq!(server.clients.clients[0].entity, 0);
}

#[test]
fn loaded_chunk_is_served_at_once() {
    let mut server = server_with_clients(1);
    server.state_mut().insert_chunk(
        (3, 3),
        Chunk::new(0, Block::new(1, 1, 1, 1), Block::empty(), ChunkMeta::void()),
    );
    server.clients.clients[0].client_state = ClientState::Spectator;
    server.clients.clients[0].postbox.inbound.push(ClientMsg::TerrainChunkRequest { key: (3, 3) });
    server.clients.clients[0].postbox.inbound.push(ClientMsg::TerrainChunkRequest { key: (4, 4) });
    let events = server.handle_new_messages();
    assert_eq!(events, Ok(vec![Event::GenerateChunk { key: (4, 4) }]));
    assert_eq!(
        server.clients.clients[0].postbox.outbound,
        vec![ServerMsg::TerrainChunkUpdate {
            key: (3, 3),
            chunk: Chunk::new(0, Block::new(1, 1, 1, 1), Block::empty(), ChunkMeta::void()),
        }]
    );
}
