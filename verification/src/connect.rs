//! Taking new connections in.

use crate::client::{Client, ClientView, PostBox};
use crate::event::{events_view, push_event, Event, EventView};
use crate::msg::{ClientState, ServerError, ServerMsg, ServerMsgView};
use crate::server::{Server, ServerView};
use vstd::prelude::*;

verus! {

/// The session that a new connection gets: in the state `Connected`, heard
/// of at `time`.
pub open spec fn fresh_client(entity: u64, postbox: PostBox, time: u64) -> ClientView {
    (Client { entity, client_state: ClientState::Connected, postbox, last_ping: time })@
}

/// Whether the server is full: it holds as many sessions as it may.
pub open spec fn at_capacity(server: ServerView) -> bool {
    server.settings.max_players <= server.clients.len()
}

/// What one new connection does. If the server has room, the connection
/// gets an entity and a session, which is sent the state of the world, and
/// the host is told. If the server is full, the connection is turned away:
/// it is sent an error and its mailbox goes to the closed ones; no session
/// and no entity is made of it, and the host is told of nothing.
pub open spec fn connection_taken(server: ServerView, events: Seq<EventView>, postbox: PostBox) -> (
    ServerView,
    Seq<EventView>,
) {
    if at_capacity(server) {
        (
            ServerView {
                closed: server.closed.push(
                    postbox@.notified(ServerMsgView::Error(ServerError::TooManyPlayers)),
                ),
                ..server
            },
            events,
        )
    } else {
        let uid = server.state.next_uid;
        let client = fresh_client(uid, postbox, server.state.time);
        (
            ServerView {
                state: server.state.with_new_entity(),
                clients: server.clients.push(
                    client.notified(
                        ServerMsgView::InitialSync { entity_uid: uid, server_info: server.info },
                    ),
                ),
                ..server
            },
            events.push(EventView::ClientConnected { entity: uid }),
        )
    }
}

/// What the first `n` new connections do, oldest first.
pub open spec fn connections_taken(
    server: ServerView,
    events: Seq<EventView>,
    postboxes: Seq<PostBox>,
    n: int,
) -> (ServerView, Seq<EventView>)
    decreases n,
{
    if n <= 0 {
        (server, events)
    } else {
        let (s, e) = connections_taken(server, events, postboxes, n - 1);
        connection_taken(s, e, postboxes[n - 1])
    }
}

/// Every connection takes at most one uid, and the sessions never become
/// more than `max_players` unless they were so before.
pub proof fn lemma_connections_take_uids(
    server: ServerView,
    events: Seq<EventView>,
    postboxes: Seq<PostBox>,
    n: int,
)
    requires
        0 <= n,
        server.state.next_uid + n <= u64::MAX,
    ensures
        server.state.next_uid <= connections_taken(server, events, postboxes, n).0.state.next_uid
            <= server.state.next_uid + n,
        connections_taken(server, events, postboxes, n).0.settings == server.settings,
        server.clients.len() <= server.settings.max_players ==> connections_taken(
            server,
            events,
            postboxes,
            n,
        ).0.clients.len() <= server.settings.max_players,
    decreases n,
{
    if n > 0 {
        lemma_connections_take_uids(server, events, postboxes, n - 1);
    }
}

/// A connection that arrives at a full server changes neither the sessions
/// nor the entities, and gives no event: all it leaves is its mailbox
/// among the closed ones, with the error in it.
pub proof fn lemma_full_server_turns_away(
    server: ServerView,
    events: Seq<EventView>,
    postbox: PostBox,
)
    requires
        at_capacity(server),
    ensures
        connection_taken(server, events, postbox).0.clients == server.clients,
        connection_taken(server, events, postbox).0.state == server.state,
        connection_taken(server, events, postbox).0.accounts == server.accounts,
        connection_taken(server, events, postbox).1 == events,
        connection_taken(server, events, postbox).0.closed.last().outbound.last()
            == ServerMsgView::Error(ServerError::TooManyPlayers),
        connection_taken(server, events, postbox).0.closed.last().id == postbox.id,
{
}

impl Server {
    /// Takes one new connection in, or turns it away if the server is full.
    pub fn handle_new_connection(&mut self, events: &mut Vec<Event>, postbox: PostBox)
        requires
            at_capacity(old(self)@) || old(self)@.state.next_uid < u64::MAX,
        ensures
            (final(self)@, events_view(final(events)@)) == connection_taken(
                old(self)@,
                events_view(old(events)@),
                postbox,
            ),
            old(self)@.wf() ==> final(self)@.wf(),
            final(self)@.world == old(self)@.world,
    {
        if self.server_settings.max_players <= self.clients.len() {
            let mut postbox = postbox;
            postbox.send_message(ServerMsg::Error(ServerError::TooManyPlayers));
            let ghost closed = self@.closed;
            self.closed.push(postbox);
            assert(self@.closed =~= closed.push(postbox@));
        } else {
            let entity = self.state.create_entity();
            let mut client = Client::new(entity, postbox, self.state.get_time());
            client.notify(
                ServerMsg::InitialSync { entity_uid: entity, server_info: self.server_info.cloned() },
            );
            push_event(events, Event::ClientConnected { entity });
            self.clients.add(client);
        }
    }

    /// Takes the new connections in, oldest first.
    pub fn handle_new_connections(&mut self, postboxes: Vec<PostBox>) -> (r: Result<
        Vec<Event>,
        crate::event::Error,
    >)
        requires
            old(self)@.state.next_uid + postboxes.len() <= u64::MAX,
        ensures
            r is Ok,
            (final(self)@, events_view(r->Ok_0@)) == connections_taken(
                old(self)@,
                Seq::empty(),
                postboxes@,
                postboxes@.len() as int,
            ),
            old(self)@.wf() ==> final(self)@.wf(),
            final(self)@.world == old(self)@.world,
    {
        let mut events: Vec<Event> = Vec::new();
        assert(events_view(events@) =~= Seq::<EventView>::empty());
        let mut queue = postboxes;
        let mut k: usize = 0;
        while k < queue.len()
            invariant
                old(self)@.wf() ==> self@.wf(),
                self@.world == old(self)@.world,
                k <= queue.len(),
                queue.len() == postboxes.len(),
                forall|j: int| k <= j < queue.len() ==> queue[j] == postboxes[j],
                old(self)@.state.next_uid + postboxes.len() <= u64::MAX,
                (self@, events_view(events@)) == connections_taken(
                    old(self)@,
                    Seq::empty(),
                    postboxes@,
                    k as int,
                ),
            decreases queue.len() - k,
        {
            proof {
                lemma_connections_take_uids(old(self)@, Seq::empty(), postboxes@, k as int);
            }
            let mut postbox = PostBox::new(0);
            std::mem::swap(&mut postbox, &mut queue[k]);
            self.handle_new_connection(&mut events, postbox);
            k = k + 1;
        }
        Ok(events)
    }
}

} // verus!
