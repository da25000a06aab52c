//! What a tick takes from the host and what it hands back.

use crate::client::PostBox;
use crate::collections::ChunkKey;
use crate::terrain::Chunk;
use crate::world::ChunkSupplement;
use vstd::prelude::*;
use vstd::std_specs::convert::FromSpecImpl;

verus! {

/// A failure of the transport.
#[derive(Clone, Copy, Debug, PartialEq, Eq, Structural)]
pub enum PostError {
    Io,
    Bincode,
    ChannelFailure,
    InvalidMessage,
}

/// A failure that ends the work of the server.
#[derive(Debug, PartialEq, Eq)]
pub enum Error {
    NetworkErr(PostError),
    Other(String),
}

impl From<PostError> for Error {
    fn from(err: PostError) -> (error: Error) {
        Error::NetworkErr(err)
    }
}

impl FromSpecImpl<PostError> for Error {
    open spec fn obeys_from_spec() -> bool {
        true
    }

    open spec fn from_spec(err: PostError) -> Error {
        Error::NetworkErr(err)
    }
}

/// A chunk that a worker has made, with what comes with it.
#[derive(Debug, PartialEq, Eq)]
pub struct GeneratedChunk {
    pub key: ChunkKey,
    pub chunk: Chunk,
    pub supplement: ChunkSupplement,
}

/// What the host hands to a tick.
#[derive(Debug, PartialEq, Eq)]
pub struct Input {
    /// The failure of the listener, if it failed.
    pub postoffice_error: Option<PostError>,
    /// The connections that were accepted since the last tick, oldest
    /// first.
    pub new_postboxes: Vec<PostBox>,
    /// One chunk that a worker has finished, if any has.
    pub generated: Option<GeneratedChunk>,
}

/// What a tick asks of the host, and what it tells it.
#[derive(Debug, PartialEq, Eq)]
pub enum Event {
    /// A client connected and got the entity.
    ClientConnected { entity: u64 },
    /// The session of the entity ended; the entity is gone.
    ClientDisconnected { entity: u64 },
    /// A chat command of the entity, without its slash, to be carried out.
    Chat { entity: Option<u64>, msg: String },
    /// A worker is to make the chunk.
    GenerateChunk { key: ChunkKey },
    /// The controller input that the client of the entity sent is to be
    /// written to the entity.
    Controller { entity: u64 },
    /// The position, velocity and orientation that the client of the entity
    /// reported are to be written to the entity.
    Physics { entity: u64 },
    /// Two slots of the inventory of the entity are to be swapped.
    SwapInventorySlots { entity: u64, a: usize, b: usize },
    /// The item in a slot of the inventory of the entity is to be dropped
    /// into the world.
    DropInventorySlot { entity: u64, slot: usize },
    /// The entity is to pick the item up.
    PickUp { entity: u64, item: u64 },
    /// A creature was spawned as the entity.
    NpcSpawned { entity: u64, boss: bool },
    /// The entity came back to life, a little above where it died.
    Respawned { entity: u64 },
    /// The entity is gone.
    EntityDeleted { entity: u64 },
}

/// An [`Event`] as a mathematical value.
pub enum EventView {
    ClientConnected { entity: u64 },
    ClientDisconnected { entity: u64 },
    Chat { entity: Option<u64>, msg: Seq<char> },
    GenerateChunk { key: ChunkKey },
    Controller { entity: u64 },
    Physics { entity: u64 },
    SwapInventorySlots { entity: u64, a: usize, b: usize },
    DropInventorySlot { entity: u64, slot: usize },
    PickUp { entity: u64, item: u64 },
    NpcSpawned { entity: u64, boss: bool },
    Respawned { entity: u64 },
    EntityDeleted { entity: u64 },
}

impl View for Event {
    type V = EventView;

    open spec fn view(&self) -> EventView {
        match *self {
            Event::ClientConnected { entity } => EventView::ClientConnected { entity },
            Event::ClientDisconnected { entity } => EventView::ClientDisconnected { entity },
            Event::Chat { entity, msg } => EventView::Chat { entity, msg: msg@ },
            Event::GenerateChunk { key } => EventView::GenerateChunk { key },
            Event::Controller { entity } => EventView::Controller { entity },
            Event::Physics { entity } => EventView::Physics { entity },
            Event::SwapInventorySlots { entity, a, b } => EventView::SwapInventorySlots {
                entity,
                a,
                b,
            },
            Event::DropInventorySlot { entity, slot } => EventView::DropInventorySlot {
                entity,
                slot,
            },
            Event::PickUp { entity, item } => EventView::PickUp { entity, item },
            Event::NpcSpawned { entity, boss } => EventView::NpcSpawned { entity, boss },
            Event::Respawned { entity } => EventView::Respawned { entity },
            Event::EntityDeleted { entity } => EventView::EntityDeleted { entity },
        }
    }
}

/// The events of a list as mathematical values.
pub open spec fn events_view(events: Seq<Event>) -> Seq<EventView> {
    events.map_values(|e: Event| e@)
}

/// Puts an event behind the others.
pub fn push_event(events: &mut Vec<Event>, event: Event)
    ensures
        events_view(final(events)@) == events_view(old(events)@).push(event@),
{
    events.push(event);
    assert(events_view(events@) =~= events_view(old(events)@).push(event@));
}

/// Puts a list of events behind another.
pub fn append_events(events: &mut Vec<Event>, more: &mut Vec<Event>)
    ensures
        events_view(final(events)@) == events_view(old(events)@) + events_view(old(more)@),
        final(more)@.len() == 0,
{
    events.append(more);
    assert(events_view(events@) =~= events_view(old(events)@) + events_view(old(more)@));
}

} // verus!
