use veloren_server::msg::{ClientState, RequestStateError};
use veloren_server::protocol::{decide, Outcome, Request};

fn states() -> Vec<ClientState> {
    vec![
        ClientState::Connected,
        ClientState::Registered,
        ClientState::Spectator,
        ClientState::Dead,
        ClientState::Character,
    ]
}

#[test]
fn request_for_connected_is_the_default() {
    assert_eq!(
        decide(ClientState::Connected, Request::RequestState(ClientState::Connected)),
        Outcome::Ignore
    );
    assert_eq!(
        decide(ClientState::Character, Request::RequestState(ClientState::Connected)),
        Outcome::Refuse(RequestStateError::Impossible)
    );
}

#[test]
fn request_for_registered() {
    let req = Request::RequestState(ClientState::Registered);
    assert_eq!(decide(ClientState::Connected, req), Outcome::Refuse(RequestStateError::WrongMessage));
    assert_eq!(decide(ClientState::Registered, req), Outcome::Refuse(RequestStateError::Already));
    assert_eq!(decide(ClientState::Spectator, req), Outcome::Allow(ClientState::Registered));
    assert_eq!(decide(ClientState::Character, req), Outcome::Allow(ClientState::Registered));
    assert_eq!(decide(ClientState::Dead, req), Outcome::Allow(ClientState::Registered));
}

#[test]
fn request_for_spectator() {
    let req = Request::RequestState(ClientState::Spectator);
    assert_eq!(decide(ClientState::Connected, req), Outcome::Refuse(RequestStateError::Impossible));
    assert_eq!(decide(ClientState::Spectator, req), Outcome::Refuse(RequestStateError::Already));
    assert_eq!(decide(ClientState::Registered, req), Outcome::Allow(ClientState::Spectator));
    assert_eq!(decide(ClientState::Character, req), Outcome::Allow(ClientState::Spectator));
    assert_eq!(decide(ClientState::Dead, req), Outcome::Allow(ClientState::Spectator));
}

#[test]
fn character_and_dead_cannot_be_requested() {
    for state in states() {
        assert_eq!(
            decide(state, Request::RequestState(ClientState::Character)),
            Outcome::Refuse(RequestStateError::WrongMessage)
        );
        assert_eq!(
            decide(state, Request::RequestState(ClientState::Dead)),
            Outcome::Refuse(RequestStateError::Impossible)
        );
    }
}

#[test]
fn register_passes_only_when_connected() {
    let good = Request::Register { valid: true, accepted: true };
    assert_eq!(decide(ClientState::Connected, good), Outcome::Allow(ClientState::Registered));
    assert_eq!(decide(ClientState::Registered, good), Outcome::Refuse(RequestStateError::Impossible));
    assert_eq!(decide(ClientState::Character, good), Outcome::Refuse(RequestStateError::Impossible));
    let denied = Request::Register { valid: true, accepted: false };
    assert_eq!(decide(ClientState::Connected, denied), Outcome::Refuse(RequestStateError::Denied));
    for state in states() {
        if state != ClientState::Connected {
            assert_eq!(decide(state, denied), Outcome::Refuse(RequestStateError::Impossible));
        }
    }
    let invalid = Request::Register { valid: false, accepted: true };
    for state in states() {
        assert_eq!(decide(state, invalid), Outcome::Refuse(RequestStateError::Impossible));
    }
}

#[test]
fn enter_character() {
    let req = Request::EnterCharacter;
    assert_eq!(decide(ClientState::Connected, req), Outcome::Refuse(RequestStateError::Impossible));
    assert_eq!(decide(ClientState::Character, req), Outcome::Refuse(RequestStateError::Already));
    assert_eq!(decide(ClientState::Registered, req), Outcome::Allow(ClientState::Character));
    assert_eq!(decide(ClientState::Spectator, req), Outcome::Allow(ClientState::Character));
    assert_eq!(decide(ClientState::Dead, req), Outcome::Allow(ClientState::Character));
}

#[test]
fn controller_needs_a_character() {
    let req = Request::Controller;
    assert_eq!(decide(ClientState::Character, req), Outcome::Accept);
    assert_eq!(decide(ClientState::Dead, req), Outcome::Accept);
    assert_eq!(decide(ClientState::Connected, req), Outcome::Refuse(RequestStateError::Impossible));
    assert_eq!(decide(ClientState::Registered, req), Outcome::Refuse(RequestStateError::Impossible));
    assert_eq!(decide(ClientState::Spectator, req), Outcome::Refuse(RequestStateError::Impossible));
}

#[test]
fn chat_physics_and_chunk_requests() {
    assert_eq!(decide(ClientState::Connected, Request::Chat), Outcome::Refuse(RequestStateError::Impossible));
    assert_eq!(decide(ClientState::Registered, Request::Chat), Outcome::Accept);
    assert_eq!(decide(ClientState::Character, Request::Physics), Outcome::Accept);
    assert_eq!(decide(ClientState::Dead, Request::Physics), Outcome::Refuse(RequestStateError::Impossible));
    assert_eq!(decide(ClientState::Spectator, Request::ChunkRequest), Outcome::Accept);
    assert_eq!(decide(ClientState::Character, Request::ChunkRequest), Outcome::Accept);
    assert_eq!(decide(ClientState::Dead, Request::ChunkRequest), Outcome::Refuse(RequestStateError::Impossible));
    assert_eq!(decide(ClientState::Registered, Request::ChunkRequest), Outcome::Refuse(RequestStateError::Impossible));
    assert_eq!(decide(ClientState::Connected, Request::ChunkRequest), Outcome::Refuse(RequestStateError::Impossible));
}

#[test]
fn ping_pong_and_disconnect_in_every_state() {
    for state in states() {
        assert_eq!(decide(state, Request::Ping), Outcome::Pong);
        assert_eq!(decide(state, Request::Pong), Outcome::Ignore);
        assert_eq!(decide(state, Request::Disconnect), Outcome::Disconnect);
        assert_eq!(decide(state, Request::Inventory), Outcome::Accept);
        assert_eq!(decide(state, Request::BlockEdit), Outcome::Accept);
    }
    assert_eq!(decide(ClientState::Character, Request::SetViewDistance), Outcome::Accept);
    assert_eq!(decide(ClientState::Spectator, Request::SetViewDistance), Outcome::Ignore);
}
