//! One tick of the server, phase by phase.

use crate::collections::{lists_set, ChunkKey};
use crate::connect::{connections_taken, lemma_connections_take_uids};
use crate::event::{append_events, events_view, Error, Event, EventView, GeneratedChunk, Input};
use crate::messages::messages_handled;
use crate::server::{Server, ServerView};
use crate::spawn::NpcRolls;
use crate::sync::clients_synced;
use crate::tick::{
    blocks_told, changed_told, entities_removed, evicted, generated_consumed, marked_for_saving,
    markers_cleared, stray_uids,
};
use vstd::prelude::*;

verus! {

/// The number of creatures that come with the input of a tick.
pub open spec fn npc_count(input: Input) -> nat {
    match input.generated {
        Some(generated) => generated.supplement.npcs@.len(),
        None => 0,
    }
}

/// The first phases of a tick: the new connections are taken in, the
/// messages of the sessions are handled, the clock moves on and the block
/// edits that waited are applied, and the chunks that they touched are
/// handed to the save buffer.
pub open spec fn tick_begun(server: ServerView, input: Input, dt: u64) -> (
    ServerView,
    Seq<EventView>,
) {
    let (connected, arrivals) = connections_taken(
        server,
        Seq::empty(),
        input.new_postboxes@,
        input.new_postboxes@.len() as int,
    );
    let (heard, requests) = messages_handled(connected);
    let stepped = ServerView { state: heard.state.ticked(dt), ..heard };
    (marked_for_saving(stepped), arrivals + requests)
}

/// The middle phases of a tick: at most one generated chunk is taken in,
/// the chunks that are in nobody's view are dropped, and the clients are
/// brought up to date with the entities.
pub open spec fn tick_grown(
    server: ServerView,
    events: Seq<EventView>,
    generated: Option<GeneratedChunk>,
    rolls: Seq<NpcRolls>,
) -> (ServerView, Seq<EventView>) {
    let (grown, events) = match generated {
        Some(g) => generated_consumed(server, events, g.key, g.chunk@, g.supplement.npcs@, rolls),
        None => (server, events),
    };
    clients_synced(ServerView { state: evicted(grown.state), ..grown }, events)
}

/// The last phases of a tick: the changed chunks are sent to the players
/// in whose view they are, in the order `order`; the block edits are sent
/// to the players in the world; the entities that the server steers and
/// that stand where no terrain is loaded are removed; and the marks of the
/// tick are taken off.
pub open spec fn tick_ended(server: ServerView, events: Seq<EventView>, order: Seq<ChunkKey>) -> (
    ServerView,
    Seq<EventView>,
) {
    let chunks = ServerView { clients: changed_told(server, order, order.len() as int), ..server };
    let blocks = ServerView {
        clients: blocks_told(
            chunks.clients,
            chunks.state.entities,
            chunks.state.changes.modified_blocks,
            chunks.state.entities.len() as int,
        ),
        ..chunks
    };
    let strays = stray_uids(
        blocks.state.entities,
        blocks.state.terrain,
        blocks.state.entities.len() as int,
    );
    let (state, events) = entities_removed(blocks.state, events, strays, strays.len() as int);
    (ServerView { state: markers_cleared(state), ..blocks }, events)
}

/// The server and the events after a tick, given what chance decided of the
/// creatures that were spawned, and the order in which the changed chunks
/// were sent.
pub open spec fn ticked(
    server: ServerView,
    input: Input,
    dt: u64,
    rolls: Seq<NpcRolls>,
    order: Seq<ChunkKey>,
) -> (ServerView, Seq<EventView>) {
    let (begun, events) = tick_begun(server, input, dt);
    let (grown, events) = tick_grown(begun, events, input.generated, rolls);
    tick_ended(grown, events, order)
}

/// Whether `rolls` and `order` are choices that a tick can make: one draw
/// for each creature, and every changed chunk once.
pub open spec fn choices_fit(
    server: ServerView,
    input: Input,
    dt: u64,
    rolls: Seq<NpcRolls>,
    order: Seq<ChunkKey>,
) -> bool {
    let (begun, events) = tick_begun(server, input, dt);
    let (grown, events) = tick_grown(begun, events, input.generated, rolls);
    rolls.len() == npc_count(input) && lists_set(order, grown.state.changes.modified_chunks)
}

impl Server {
    /// Executes one tick of `dt` milliseconds.
    ///
    /// If the listener has failed, the tick does nothing and gives the
    /// failure. Else it runs its phases in their fixed order and gives the
    /// events for the host. Two things are left open: what chance decides of
    /// the creatures that come with a generated chunk, and the order in
    /// which the changed chunks are sent.
    ///
    /// Moving the entities is the host's part. It does so between two
    /// ticks and leaves what it changed in the entities, marked as changed;
    /// the next tick passes it on to the clients.
    ///
    /// Every new connection and every creature takes one uid, so as many
    /// must be left.
    pub fn tick(&mut self, input: Input, dt: u64) -> (r: Result<Vec<Event>, Error>)
        requires
            old(self)@.state.next_uid + input.new_postboxes@.len() + npc_count(input) <= u64::MAX,
        ensures
            match r {
                Err(error) => input.postoffice_error is Some && error == Error::NetworkErr(
                    input.postoffice_error->0,
                ) && final(self)@ == old(self)@,
                Ok(events) => input.postoffice_error is None && exists|
                    rolls: Seq<NpcRolls>,
                    order: Seq<ChunkKey>,
                |
                    #![trigger ticked(old(self)@, input, dt, rolls, order)]
                    choices_fit(old(self)@, input, dt, rolls, order) && (
                        final(self)@,
                        events_view(events@),
                    ) == ticked(old(self)@, input, dt, rolls, order),
            },
            old(self)@.wf() ==> final(self)@.wf(),
            final(self)@.world == old(self)@.world,
    {
        let Input { postoffice_error, new_postboxes, generated } = input;
        match postoffice_error {
            Some(err) => {
                return Err(Error::from(err));
            },
            None => {},
        }
        proof {
            lemma_connections_take_uids(
                old(self)@,
                Seq::empty(),
                new_postboxes@,
                new_postboxes@.len() as int,
            );
        }
        let mut events = match self.handle_new_connections(new_postboxes) {
            Ok(events) => events,
            Err(error) => {
                return Err(error);
            },
        };
        let mut requests = match self.handle_new_messages() {
            Ok(events) => events,
            Err(error) => {
                return Err(error);
            },
        };
        append_events(&mut events, &mut requests);
        self.state.tick(dt);
        self.mark_for_saving();
        assert((self@, events_view(events@)) == tick_begun(old(self)@, input, dt));
        let ghost begun = self@;
        let ghost begun_events = events_view(events@);
        let rolls = match generated {
            Some(generated) => self.consume_generated(&mut events, generated),
            None => Ghost(Seq::empty()),
        };
        self.evict_chunks();
        self.sync_clients(&mut events);
        assert((self@, events_view(events@)) == tick_grown(
            begun,
            begun_events,
            input.generated,
            rolls@,
        ));
        let order = self.state.terrain_changes.modified_chunks.keys();
        self.sync_changed_chunks(&order);
        self.sync_blocks();
        self.remove_strays(&mut events);
        self.clear_markers();
        assert(choices_fit(old(self)@, input, dt, rolls@, order@));
        assert((self@, events_view(events@)) == ticked(old(self)@, input, dt, rolls@, order@));
        Ok(events)
    }
}

} // verus!
