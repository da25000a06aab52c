//! The messages that clients and the server exchange.
//!
//! Values that the server core never reads (controller input, velocities,
//! inventories, the entity snapshot of the first synchronisation) are not
//! part of these messages: the transport attaches them from the entity store
//! when it puts a message on the wire.

use crate::collections::{BlockMap, BlockPos, ChunkKey};
use crate::comp::{Body, Player};
use crate::terrain::{Block, Chunk, ChunkView};
use vstd::prelude::*;

verus! {

/// The state of a connection, as the protocol sees it.
#[derive(Clone, Copy, Debug, PartialEq, Eq, Structural)]
pub enum ClientState {
    Connected,
    Registered,
    Spectator,
    Dead,
    Character,
}

/// Why a request for a state was turned down.
#[derive(Clone, Copy, Debug, PartialEq, Eq, Structural)]
pub enum RequestStateError {
    /// The state is held already.
    Already,
    /// The state cannot be reached from the current one.
    Impossible,
    /// The state is reached by another message.
    WrongMessage,
    /// The credentials were refused.
    Denied,
}

/// An error that the server reports to a connection as a whole.
#[derive(Clone, Copy, Debug, PartialEq, Eq, Structural)]
pub enum ServerError {
    TooManyPlayers,
}

/// The kind of a chat line.
#[derive(Clone, Copy, Debug, PartialEq, Eq, Structural)]
pub enum ChatType {
    Broadcast,
    Chat,
    GameUpdate,
    Private,
    Tell,
    Kill,
}

/// What a server tells of itself.
#[derive(Clone, Debug, PartialEq, Eq)]
pub struct ServerInfo {
    pub name: String,
    pub description: String,
    pub git_hash: String,
}

/// A [`ServerInfo`] as a mathematical value.
pub struct ServerInfoView {
    pub name: Seq<char>,
    pub description: Seq<char>,
    pub git_hash: Seq<char>,
}

impl View for ServerInfo {
    type V = ServerInfoView;

    open spec fn view(&self) -> ServerInfoView {
        ServerInfoView {
            name: self.name@,
            description: self.description@,
            git_hash: self.git_hash@,
        }
    }
}

impl ServerInfo {
    /// A copy with the same texts.
    pub fn cloned(&self) -> (info: ServerInfo)
        ensures
            info@ == self@,
    {
        ServerInfo {
            name: self.name.clone(),
            description: self.description.clone(),
            git_hash: self.git_hash.clone(),
        }
    }
}

/// A message from a client.
#[derive(Debug, PartialEq, Eq)]
pub enum ClientMsg {
    Register { player: Player, password: String },
    Character { name: String, body: Body },
    Controller,
    RequestState(ClientState),
    SetViewDistance(u32),
    BreakBlock(BlockPos),
    PlaceBlock(BlockPos, Block),
    Ping,
    Pong,
    ChatMsg { chat_type: ChatType, message: String },
    /// The client's own report of where it is; `pos` is the block it stands
    /// in.
    PlayerPhysics { pos: BlockPos },
    SwapInventorySlots(usize, usize),
    DropInventorySlot(usize),
    PickUp(u64),
    TerrainChunkRequest { key: ChunkKey },
    Disconnect,
}

/// A message to a client.
#[derive(Debug, PartialEq, Eq)]
pub enum ServerMsg {
    InitialSync { entity_uid: u64, server_info: ServerInfo },
    Shutdown,
    Ping,
    Pong,
    StateAnswer(Result<ClientState, (RequestStateError, ClientState)>),
    ForceState(ClientState),
    ChatMsg { chat_type: ChatType, message: String },
    EntityPos { entity: u64 },
    EntityVel { entity: u64 },
    EntityOri { entity: u64 },
    EntityActionState { entity: u64 },
    InventoryUpdate,
    TerrainChunkUpdate { key: ChunkKey, chunk: Chunk },
    TerrainBlockUpdates(BlockMap),
    EcsSync,
    Error(ServerError),
    Disconnect,
}

/// A [`ServerMsg`] as a mathematical value.
pub enum ServerMsgView {
    InitialSync { entity_uid: u64, server_info: ServerInfoView },
    Shutdown,
    Ping,
    Pong,
    StateAnswer(Result<ClientState, (RequestStateError, ClientState)>),
    ForceState(ClientState),
    ChatMsg { chat_type: ChatType, message: Seq<char> },
    EntityPos { entity: u64 },
    EntityVel { entity: u64 },
    EntityOri { entity: u64 },
    EntityActionState { entity: u64 },
    InventoryUpdate,
    TerrainChunkUpdate { key: ChunkKey, chunk: ChunkView },
    TerrainBlockUpdates(Map<BlockPos, Block>),
    EcsSync,
    Error(ServerError),
    Disconnect,
}

impl View for ServerMsg {
    type V = ServerMsgView;

    open spec fn view(&self) -> ServerMsgView {
        match *self {
            ServerMsg::InitialSync { entity_uid, server_info } => ServerMsgView::InitialSync {
                entity_uid,
                server_info: server_info@,
            },
            ServerMsg::Shutdown => ServerMsgView::Shutdown,
            ServerMsg::Ping => ServerMsgView::Ping,
            ServerMsg::Pong => ServerMsgView::Pong,
            ServerMsg::StateAnswer(answer) => ServerMsgView::StateAnswer(answer),
            ServerMsg::ForceState(state) => ServerMsgView::ForceState(state),
            ServerMsg::ChatMsg { chat_type, message } => ServerMsgView::ChatMsg {
                chat_type,
                message: message@,
            },
            ServerMsg::EntityPos { entity } => ServerMsgView::EntityPos { entity },
            ServerMsg::EntityVel { entity } => ServerMsgView::EntityVel { entity },
            ServerMsg::EntityOri { entity } => ServerMsgView::EntityOri { entity },
            ServerMsg::EntityActionState { entity } => ServerMsgView::EntityActionState { entity },
            ServerMsg::InventoryUpdate => ServerMsgView::InventoryUpdate,
            ServerMsg::TerrainChunkUpdate { key, chunk } => ServerMsgView::TerrainChunkUpdate {
                key,
                chunk: chunk@,
            },
            ServerMsg::TerrainBlockUpdates(blocks) => ServerMsgView::TerrainBlockUpdates(blocks@),
            ServerMsg::EcsSync => ServerMsgView::EcsSync,
            ServerMsg::Error(error) => ServerMsgView::Error(error),
            ServerMsg::Disconnect => ServerMsgView::Disconnect,
        }
    }
}

/// A chat line as a message value.
pub open spec fn chat_view(chat_type: ChatType, message: Seq<char>) -> ServerMsgView {
    ServerMsgView::ChatMsg { chat_type, message }
}

impl ServerMsg {
    /// A chat line for everybody.
    pub fn broadcast(message: String) -> (msg: ServerMsg)
        ensures
            msg@ == chat_view(ChatType::Broadcast, message@),
    {
        ServerMsg::ChatMsg { chat_type: ChatType::Broadcast, message }
    }

    /// A chat line for one client alone.
    pub fn private(message: String) -> (msg: ServerMsg)
        ensures
            msg@ == chat_view(ChatType::Private, message@),
    {
        ServerMsg::ChatMsg { chat_type: ChatType::Private, message }
    }

    /// A chat line that reports a death.
    pub fn kill(message: String) -> (msg: ServerMsg)
        ensures
            msg@ == chat_view(ChatType::Kill, message@),
    {
        ServerMsg::ChatMsg { chat_type: ChatType::Kill, message }
    }

    /// A copy of the message.
    pub fn cloned(&self) -> (msg: ServerMsg)
        ensures
            msg@ == self@,
    {
        match self {
            ServerMsg::InitialSync { entity_uid, server_info } => ServerMsg::InitialSync {
                entity_uid: *entity_uid,
                server_info: server_info.cloned(),
            },
            ServerMsg::Shutdown => ServerMsg::Shutdown,
            ServerMsg::Ping => ServerMsg::Ping,
            ServerMsg::Pong => ServerMsg::Pong,
            ServerMsg::StateAnswer(answer) => ServerMsg::StateAnswer(*answer),
            ServerMsg::ForceState(state) => ServerMsg::ForceState(*state),
            ServerMsg::ChatMsg { chat_type, message } => ServerMsg::ChatMsg {
                chat_type: *chat_type,
                message: message.clone(),
            },
            ServerMsg::EntityPos { entity } => ServerMsg::EntityPos { entity: *entity },
            ServerMsg::EntityVel { entity } => ServerMsg::EntityVel { entity: *entity },
            ServerMsg::EntityOri { entity } => ServerMsg::EntityOri { entity: *entity },
            ServerMsg::EntityActionState { entity } => ServerMsg::EntityActionState {
                entity: *entity,
            },
            ServerMsg::InventoryUpdate => ServerMsg::InventoryUpdate,
            ServerMsg::TerrainChunkUpdate { key, chunk } => ServerMsg::TerrainChunkUpdate {
                key: *key,
                chunk: chunk.cloned(),
            },
            ServerMsg::TerrainBlockUpdates(blocks) => ServerMsg::TerrainBlockUpdates(
                blocks.cloned(),
            ),
            ServerMsg::EcsSync => ServerMsg::EcsSync,
            ServerMsg::Error(error) => ServerMsg::Error(*error),
            ServerMsg::Disconnect => ServerMsg::Disconnect,
        }
    }
}

/// The messages of a queue as mathematical values.
pub open spec fn msgs_view(msgs: Seq<ServerMsg>) -> Seq<ServerMsgView> {
    msgs.map_values(|m: ServerMsg| m@)
}

} // verus!
