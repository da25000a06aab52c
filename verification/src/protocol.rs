//! The state machine of one connection.
//!
//! A request is judged by the state of the connection alone. The judgement
//! says whether the connection changes state, is turned down with a typed
//! error, or is torn down; carrying it out is the server's part.

use crate::msg::{ClientState, RequestStateError};
use vstd::prelude::*;

verus! {

/// A request of a client, as far as the state machine tells requests apart.
#[derive(Clone, Copy, Debug, PartialEq, Eq, Structural)]
pub enum Request {
    /// A plain request for a state.
    RequestState(ClientState),
    /// Credentials: whether the player's data are well-formed, and whether
    /// the account check lets them pass. The account check is made, and
    /// `accepted` counts, for a session in the state `Connected` alone.
    Register { valid: bool, accepted: bool },
    /// A character to enter the world with.
    EnterCharacter,
    /// Input for the client's character.
    Controller,
    /// A chat line.
    Chat,
    /// The client's own physics report.
    Physics,
    /// A request for a chunk of terrain.
    ChunkRequest,
    /// A new view distance.
    SetViewDistance,
    /// A change to the inventory.
    Inventory,
    /// A block to break or to place.
    BlockEdit,
    Ping,
    Pong,
    Disconnect,
}

/// What becomes of a request.
#[derive(Clone, Copy, Debug, PartialEq, Eq, Structural)]
pub enum Outcome {
    /// The connection takes the state, and the client is told so.
    Allow(ClientState),
    /// The client is sent the error; the connection stays as it is.
    Refuse(RequestStateError),
    /// The request is carried out; the state stays.
    Accept,
    /// The client is sent a pong.
    Pong,
    /// Nothing happens.
    Ignore,
    /// The connection is torn down.
    Disconnect,
}

/// The judgement on a request in a state.
pub open spec fn transition(state: ClientState, request: Request) -> Outcome {
    match request {
        Request::RequestState(ClientState::Connected) => match state {
            ClientState::Connected => Outcome::Ignore,
            _ => Outcome::Refuse(RequestStateError::Impossible),
        },
        Request::RequestState(ClientState::Registered) => match state {
            ClientState::Connected => Outcome::Refuse(RequestStateError::WrongMessage),
            ClientState::Registered => Outcome::Refuse(RequestStateError::Already),
            _ => Outcome::Allow(ClientState::Registered),
        },
        Request::RequestState(ClientState::Spectator) => match state {
            ClientState::Connected => Outcome::Refuse(RequestStateError::Impossible),
            ClientState::Spectator => Outcome::Refuse(RequestStateError::Already),
            _ => Outcome::Allow(ClientState::Spectator),
        },
        Request::RequestState(ClientState::Character) => Outcome::Refuse(
            RequestStateError::WrongMessage,
        ),
        Request::RequestState(ClientState::Dead) => Outcome::Refuse(RequestStateError::Impossible),
        Request::Register { valid, accepted } => if !valid {
            Outcome::Refuse(RequestStateError::Impossible)
        } else {
            match state {
                ClientState::Connected => if accepted {
                    Outcome::Allow(ClientState::Registered)
                } else {
                    Outcome::Refuse(RequestStateError::Denied)
                },
                _ => Outcome::Refuse(RequestStateError::Impossible),
            }
        },
        Request::EnterCharacter => match state {
            ClientState::Connected => Outcome::Refuse(RequestStateError::Impossible),
            ClientState::Character => Outcome::Refuse(RequestStateError::Already),
            _ => Outcome::Allow(ClientState::Character),
        },
        Request::Controller => match state {
            ClientState::Character | ClientState::Dead => Outcome::Accept,
            _ => Outcome::Refuse(RequestStateError::Impossible),
        },
        Request::Chat => match state {
            ClientState::Connected => Outcome::Refuse(RequestStateError::Impossible),
            _ => Outcome::Accept,
        },
        Request::Physics => match state {
            ClientState::Character => Outcome::Accept,
            _ => Outcome::Refuse(RequestStateError::Impossible),
        },
        Request::ChunkRequest => match state {
            ClientState::Spectator | ClientState::Character => Outcome::Accept,
            _ => Outcome::Refuse(RequestStateError::Impossible),
        },
        Request::SetViewDistance => match state {
            ClientState::Character => Outcome::Accept,
            _ => Outcome::Ignore,
        },
        Request::Inventory => Outcome::Accept,
        Request::BlockEdit => Outcome::Accept,
        Request::Ping => Outcome::Pong,
        Request::Pong => Outcome::Ignore,
        Request::Disconnect => Outcome::Disconnect,
    }
}

/// The state of the connection once the judgement is carried out.
pub open spec fn next_state(state: ClientState, outcome: Outcome) -> ClientState {
    match outcome {
        Outcome::Allow(new_state) => new_state,
        _ => state,
    }
}

/// The table of what a client may ask for in each state. Whatever is not
/// in it is turned down.
pub open spec fn allowed(state: ClientState, request: Request) -> bool {
    match request {
        Request::RequestState(ClientState::Connected) => state == ClientState::Connected,
        Request::RequestState(ClientState::Registered) => state == ClientState::Spectator || state
            == ClientState::Character || state == ClientState::Dead,
        Request::RequestState(ClientState::Spectator) => state == ClientState::Registered || state
            == ClientState::Character || state == ClientState::Dead,
        Request::RequestState(_) => false,
        Request::Register { valid, accepted } => valid && accepted && state
            == ClientState::Connected,
        Request::EnterCharacter => state == ClientState::Registered || state
            == ClientState::Spectator || state == ClientState::Dead,
        Request::Controller => state == ClientState::Character || state == ClientState::Dead,
        Request::Chat => state != ClientState::Connected,
        Request::Physics => state == ClientState::Character,
        Request::ChunkRequest => state == ClientState::Spectator || state == ClientState::Character,
        Request::SetViewDistance => true,
        Request::Inventory => true,
        Request::BlockEdit => true,
        Request::Ping => true,
        Request::Pong => true,
        Request::Disconnect => true,
    }
}

/// Computes [`transition`].
pub fn decide(state: ClientState, request: Request) -> (outcome: Outcome)
    ensures
        outcome == transition(state, request),
{
    match request {
        Request::RequestState(requested) => match requested {
            ClientState::Connected => match state {
                ClientState::Connected => Outcome::Ignore,
                _ => Outcome::Refuse(RequestStateError::Impossible),
            },
            ClientState::Registered => match state {
                ClientState::Connected => Outcome::Refuse(RequestStateError::WrongMessage),
                ClientState::Registered => Outcome::Refuse(RequestStateError::Already),
                ClientState::Spectator | ClientState::Character | ClientState::Dead => {
                    Outcome::Allow(ClientState::Registered)
                },
            },
            ClientState::Spectator => match state {
                ClientState::Connected => Outcome::Refuse(RequestStateError::Impossible),
                ClientState::Spectator => Outcome::Refuse(RequestStateError::Already),
                ClientState::Registered | ClientState::Character | ClientState::Dead => {
                    Outcome::Allow(ClientState::Spectator)
                },
            },
            ClientState::Character => Outcome::Refuse(RequestStateError::WrongMessage),
            ClientState::Dead => Outcome::Refuse(RequestStateError::Impossible),
        },
        Request::Register { valid, accepted } => {
            if !valid {
                Outcome::Refuse(RequestStateError::Impossible)
            } else {
                match state {
                    ClientState::Connected => if accepted {
                        Outcome::Allow(ClientState::Registered)
                    } else {
                        Outcome::Refuse(RequestStateError::Denied)
                    },
                    _ => Outcome::Refuse(RequestStateError::Impossible),
                }
            }
        },
        Request::EnterCharacter => match state {
            ClientState::Connected => Outcome::Refuse(RequestStateError::Impossible),
            ClientState::Registered | ClientState::Spectator | ClientState::Dead => Outcome::Allow(
                ClientState::Character,
            ),
            ClientState::Character => Outcome::Refuse(RequestStateError::Already),
        },
        Request::Controller => match state {
            ClientState::Connected | ClientState::Registered | ClientState::Spectator => {
                Outcome::Refuse(RequestStateError::Impossible)
            },
            ClientState::Dead | ClientState::Character => Outcome::Accept,
        },
        Request::Chat => match state {
            ClientState::Connected => Outcome::Refuse(RequestStateError::Impossible),
            _ => Outcome::Accept,
        },
        Request::Physics => match state {
            ClientState::Character => Outcome::Accept,
            _ => Outcome::Refuse(RequestStateError::Impossible),
        },
        Request::ChunkRequest => match state {
            ClientState::Connected | ClientState::Registered | ClientState::Dead => Outcome::Refuse(
                RequestStateError::Impossible,
            ),
            ClientState::Spectator | ClientState::Character => Outcome::Accept,
        },
        Request::SetViewDistance => match state {
            ClientState::Character => Outcome::Accept,
            _ => Outcome::Ignore,
        },
        Request::Inventory => Outcome::Accept,
        Request::BlockEdit => Outcome::Accept,
        Request::Ping => Outcome::Pong,
        Request::Pong => Outcome::Ignore,
        Request::Disconnect => Outcome::Disconnect,
    }
}

/// A request is turned down with a typed error exactly when the table does
/// not allow it in the state.
pub proof fn lemma_refused_iff_not_allowed(state: ClientState, request: Request)
    ensures
        transition(state, request) is Refuse <==> !allowed(state, request),
{
}

/// A request that is turned down leaves the connection in its state and does
/// not tear it down: whatever the client sends next is judged as it would
/// have been before.
pub proof fn lemma_refusal_keeps_session(state: ClientState, request: Request, next: Request)
    requires
        !allowed(state, request),
    ensures
        transition(state, request) is Refuse,
        !(transition(state, request) is Disconnect),
        next_state(state, transition(state, request)) == state,
        transition(next_state(state, transition(state, request)), next) == transition(state, next),
{
}

/// Only an explicit disconnect tears a connection down.
pub proof fn lemma_only_disconnect_tears_down(state: ClientState, request: Request)
    ensures
        transition(state, request) is Disconnect <==> request is Disconnect,
{
}

/// A ping is answered with a pong in every state.
pub proof fn lemma_ping_always_answered(state: ClientState)
    ensures
        transition(state, Request::Ping) == Outcome::Pong,
{
}

/// Credentials are refused as `Denied` in the state `Connected` alone: in
/// every other state a registration is impossible whatever the accounts
/// say.
pub proof fn lemma_denied_only_when_connected(state: ClientState, request: Request)
    requires
        transition(state, request) == Outcome::Refuse(RequestStateError::Denied),
    ensures
        state == ClientState::Connected,
        request is Register,
{
}

/// A state is entered only from a state other than itself.
pub proof fn lemma_allow_changes_state(state: ClientState, request: Request)
    requires
        transition(state, request) is Allow,
    ensures
        next_state(state, transition(state, request)) != state,
{
}

} // verus!
