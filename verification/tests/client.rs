use veloren_server::auth_provider::AuthProvider;
use veloren_server::client::{Client, Clients, PostBox};
use veloren_server::comp::{Entity, Player};
use veloren_server::msg::{
    ChatType, ClientMsg, ClientState, RequestStateError, ServerInfo, ServerMsg,
};
use veloren_server::terrain::{Block, Chunk, ChunkMeta};

fn client(entity: u64, state: ClientState) -> Client {
    let mut client = Client::new(entity, PostBox::new(entity + 100), 5);
    client.client_state = state;
    client
}

#[test]
fn accounts_belong_to_whoever_came_first() {
    let mut accounts = AuthProvider::new();
    assert!(accounts.query("Bob".to_string(), "x".to_string()));
    assert!(accounts.query("Bob".to_string(), "x".to_string()));
    assert!(!accounts.query("Bob".to_string(), "y".to_string()));
    assert!(accounts.query("Eve".to_string(), "y".to_string()));
    assert!(!accounts.query("Eve".to_string(), "x".to_string()));
    assert_eq!(
        accounts.accounts,
        vec![("Bob".to_string(), "x".to_string()), ("Eve".to_string(), "y".to_string())]
    );
}

#[test]
fn alias_may_be_thirty_two_characters_long() {
    assert!(Player::new("".to_string(), None).is_valid());
    assert!(Player::new("Bob".to_string(), Some(3)).is_valid());
    assert!(Player::new("x".repeat(32), None).is_valid());
    assert!(!Player::new("x".repeat(33), None).is_valid());
    assert!(Player::new("é".repeat(32), None).is_valid());
}

#[test]
fn postbox_hands_out_what_arrived_once() {
    let mut postbox = PostBox::new(3);
    assert_eq!(postbox.id, 3);
    assert!(!postbox.error());
    postbox.inbound.push(ClientMsg::Ping);
    postbox.inbound.push(ClientMsg::Pong);
    assert_eq!(postbox.new_messages(), vec![ClientMsg::Ping, ClientMsg::Pong]);
    assert_eq!(postbox.new_messages(), vec![]);
    postbox.send_message(ServerMsg::Pong);
    postbox.send_message(ServerMsg::Ping);
    assert_eq!(postbox.outbound, vec![ServerMsg::Pong, ServerMsg::Ping]);
    postbox.error = true;
    assert!(postbox.error());
}

#[test]
fn client_is_told_of_its_states() {
    let mut client = Client::new(4, PostBox::new(9), 77);
    assert_eq!(client.client_state, ClientState::Connected);
    assert_eq!(client.last_ping, 77);
    assert!(!client.is_registered());
    assert!(!client.is_ingame());
    client.error_state(RequestStateError::Impossible);
    client.allow_state(ClientState::Registered);
    assert!(client.is_registered());
    assert!(!client.is_ingame());
    client.error_state(RequestStateError::Already);
    client.force_state(ClientState::Dead);
    assert!(client.is_ingame());
    client.notify(ServerMsg::Shutdown);
    assert_eq!(client.client_state, ClientState::Dead);
    assert_eq!(
        client.postbox.outbound,
        vec![
            ServerMsg::StateAnswer(Err((RequestStateError::Impossible, ClientState::Connected))),
            ServerMsg::StateAnswer(Ok(ClientState::Registered)),
            ServerMsg::StateAnswer(Err((RequestStateError::Already, ClientState::Registered))),
            ServerMsg::ForceState(ClientState::Dead),
            ServerMsg::Shutdown,
        ]
    );
}

#[test]
fn registry_finds_sessions_by_entity() {
    let mut clients = Clients::empty();
    assert_eq!(clients.len(), 0);
    assert_eq!(clients.index_of(1), None);
    clients.add(client(5, ClientState::Connected));
    clients.add(client(1, ClientState::Registered));
    clients.add(client(8, ClientState::Character));
    assert_eq!(clients.len(), 3);
    assert_eq!(clients.index_of(5), Some(0));
    assert_eq!(clients.index_of(1), Some(1));
    assert_eq!(clients.index_of(8), Some(2));
    assert_eq!(clients.index_of(2), None);
}

#[test]
fn registry_notifies_the_sessions_that_are_meant() {
    let mut clients = Clients::empty();
    clients.add(client(5, ClientState::Connected));
    clients.add(client(1, ClientState::Registered));
    clients.add(client(8, ClientState::Character));
    clients.notify_registered(ServerMsg::Shutdown);
    clients.notify(5, ServerMsg::Ping);
    clients.notify(99, ServerMsg::Pong);
    clients.notify_where(&vec![true, false, true], &ServerMsg::EcsSync);
    assert_eq!(clients.clients[0].postbox.outbound, vec![ServerMsg::Ping, ServerMsg::EcsSync]);
    assert_eq!(clients.clients[1].postbox.outbound, vec![ServerMsg::Shutdown]);
    assert_eq!(
        clients.clients[2].postbox.outbound,
        vec![ServerMsg::Shutdown, ServerMsg::EcsSync]
    );
}

#[test]
fn chat_messages_have_their_kinds() {
    assert_eq!(
        ServerMsg::broadcast("a".to_string()),
        ServerMsg::ChatMsg { chat_type: ChatType::Broadcast, message: "a".to_string() }
    );
    assert_eq!(
        ServerMsg::private("b".to_string()),
        ServerMsg::ChatMsg { chat_type: ChatType::Private, message: "b".to_string() }
    );
    assert_eq!(
        ServerMsg::kill("c".to_string()),
        ServerMsg::ChatMsg { chat_type: ChatType::Kill, message: "c".to_string() }
    );
}

#[test]
fn message_copies_are_equal() {
    let mut chunk = Chunk::new(1, Block::new(2, 3, 4, 5), Block::empty(), ChunkMeta::void());
    chunk.set((1, 2, 3), Block::new(9, 9, 9, 9));
    let mut blocks = veloren_server::collections::BlockMap::new();
    blocks.insert((0, 0, 0), Block::new(1, 1, 1, 1));
    let info = ServerInfo {
        name: "n".to_string(),
        description: "d".to_string(),
        git_hash: "g".to_string(),
    };
    let msgs = vec![
        ServerMsg::InitialSync { entity_uid: 4, server_info: info.cloned() },
        ServerMsg::Shutdown,
        ServerMsg::Ping,
        ServerMsg::Pong,
        ServerMsg::StateAnswer(Ok(ClientState::Dead)),
        ServerMsg::ForceState(ClientState::Dead),
        ServerMsg::broadcast("x".to_string()),
        ServerMsg::EntityPos { entity: 1 },
        ServerMsg::EntityVel { entity: 2 },
        ServerMsg::EntityOri { entity: 3 },
        ServerMsg::EntityActionState { entity: 4 },
        ServerMsg::InventoryUpdate,
        ServerMsg::TerrainChunkUpdate { key: (1, 2), chunk },
        ServerMsg::TerrainBlockUpdates(blocks),
        ServerMsg::EcsSync,
        ServerMsg::Disconnect,
    ];
    for msg in &msgs {
        assert_eq!(&msg.cloned(), msg);
    }
    assert_eq!(info.cloned(), info);
}

#[test]
fn new_entity_has_nothing_but_its_uid() {
    let entity = Entity::new(12);
    assert_eq!(entity.uid, 12);
    assert_eq!(entity.player, None);
    assert_eq!(entity.pos, None);
    assert_eq!(entity.stats, None);
    assert_eq!(entity.body, None);
    assert!(!entity.vel.present && !entity.ori.present && !entity.action_state.present);
    assert!(!entity.agent && !entity.admin && !entity.can_build && !entity.force_update);
    assert_eq!(entity.dying, None);
}
