//! Sessions: one per connection, each with its mailbox.
//!
//! A [`PostBox`] is the server's end of a connection as plain data. The
//! transport fills `inbound` and `error` before a tick and empties
//! `outbound` after it; the server core never waits on it.

use crate::msg::{msgs_view, ClientMsg, ClientState, RequestStateError, ServerMsg, ServerMsgView};
use vstd::prelude::*;

verus! {

/// The server's end of one connection.
#[derive(Debug, PartialEq, Eq)]
pub struct PostBox {
    /// The transport's own name for the connection.
    pub id: u64,
    /// Messages that arrived and were not handled yet, oldest first.
    pub inbound: Vec<ClientMsg>,
    /// Messages to send, oldest first.
    pub outbound: Vec<ServerMsg>,
    /// Whether the transport gave the connection up.
    pub error: bool,
}

/// A [`PostBox`] as a mathematical value.
pub struct PostBoxView {
    pub id: u64,
    pub inbound: Seq<ClientMsg>,
    pub outbound: Seq<ServerMsgView>,
    pub error: bool,
}

impl PostBoxView {
    /// The mailbox with one more message to send.
    pub open spec fn notified(self, msg: ServerMsgView) -> PostBoxView {
        PostBoxView { outbound: self.outbound.push(msg), ..self }
    }
}

impl View for PostBox {
    type V = PostBoxView;

    open spec fn view(&self) -> PostBoxView {
        PostBoxView {
            id: self.id,
            inbound: self.inbound@,
            outbound: msgs_view(self.outbound@),
            error: self.error,
        }
    }
}

/// The mailboxes of a list as mathematical values.
pub open spec fn postboxes_view(postboxes: Seq<PostBox>) -> Seq<PostBoxView> {
    postboxes.map_values(|p: PostBox| p@)
}

impl PostBox {
    /// An empty mailbox for the connection `id`.
    pub fn new(id: u64) -> (postbox: PostBox)
        ensures
            postbox.id == id,
            postbox.inbound@ == Seq::<ClientMsg>::empty(),
            postbox.outbound@ == Seq::<ServerMsg>::empty(),
            !postbox.error,
    {
        PostBox { id, inbound: Vec::new(), outbound: Vec::new(), error: false }
    }

    /// Takes the messages that arrived, oldest first, and leaves none.
    pub fn new_messages(&mut self) -> (msgs: Vec<ClientMsg>)
        ensures
            msgs@ == old(self).inbound@,
            final(self).inbound@ == Seq::<ClientMsg>::empty(),
            final(self).id == old(self).id,
            final(self).outbound == old(self).outbound,
            final(self).error == old(self).error,
    {
        let mut msgs = Vec::new();
        std::mem::swap(&mut msgs, &mut self.inbound);
        msgs
    }

    /// Queues a message for sending.
    pub fn send_message(&mut self, msg: ServerMsg)
        ensures
            final(self).outbound@ == old(self).outbound@.push(msg),
            final(self).id == old(self).id,
            final(self).inbound == old(self).inbound,
            final(self).error == old(self).error,
            final(self)@ == old(self)@.notified(msg@),
    {
        self.outbound.push(msg);
        assert(msgs_view(self.outbound@) =~= msgs_view(old(self).outbound@).push(msg@));
    }

    /// Whether the transport gave the connection up.
    pub fn error(&self) -> (r: bool)
        ensures
            r == self.error,
    {
        self.error
    }
}

/// One session.
#[derive(Debug, PartialEq, Eq)]
pub struct Client {
    /// The uid of the entity that stands for the client.
    pub entity: u64,
    pub client_state: ClientState,
    pub postbox: PostBox,
    /// The time, in milliseconds, at which the client was last heard of.
    pub last_ping: u64,
}

/// A [`Client`] as a mathematical value.
pub struct ClientView {
    pub entity: u64,
    pub state: ClientState,
    pub last_ping: u64,
    pub conn: u64,
    pub inbound: Seq<ClientMsg>,
    pub outbound: Seq<ServerMsgView>,
    pub error: bool,
}

impl ClientView {
    /// The session with one more message to send.
    pub open spec fn notified(self, msg: ServerMsgView) -> ClientView {
        ClientView { outbound: self.outbound.push(msg), ..self }
    }

    /// The session in a new state that it asked for, and told so.
    pub open spec fn allowed(self, state: ClientState) -> ClientView {
        ClientView { state, ..self }.notified(ServerMsgView::StateAnswer(Ok(state)))
    }

    /// The session told that its request failed, with the state it stays in.
    pub open spec fn refused(self, error: RequestStateError) -> ClientView {
        self.notified(ServerMsgView::StateAnswer(Err((error, self.state))))
    }

    /// The session put into a state that it did not ask for, and told so.
    pub open spec fn forced(self, state: ClientState) -> ClientView {
        ClientView { state, ..self }.notified(ServerMsgView::ForceState(state))
    }

    /// The mailbox of the session.
    pub open spec fn mailbox(self) -> PostBoxView {
        PostBoxView {
            id: self.conn,
            inbound: self.inbound,
            outbound: self.outbound,
            error: self.error,
        }
    }

    /// Whether the session is past registration.
    pub open spec fn is_registered(self) -> bool {
        self.state != ClientState::Connected
    }

    /// Whether the session is in the world, watching or playing.
    pub open spec fn is_ingame(self) -> bool {
        self.state == ClientState::Spectator || self.state == ClientState::Character || self.state
            == ClientState::Dead
    }
}

impl View for Client {
    type V = ClientView;

    open spec fn view(&self) -> ClientView {
        ClientView {
            entity: self.entity,
            state: self.client_state,
            last_ping: self.last_ping,
            conn: self.postbox.id,
            inbound: self.postbox.inbound@,
            outbound: msgs_view(self.postbox.outbound@),
            error: self.postbox.error,
        }
    }
}

impl Client {
    /// A session in the state `Connected`, heard of at `time`.
    pub fn new(entity: u64, postbox: PostBox, time: u64) -> (client: Client)
        ensures
            client.entity == entity,
            client.client_state == ClientState::Connected,
            client.postbox == postbox,
            client.last_ping == time,
    {
        Client { entity, client_state: ClientState::Connected, postbox, last_ping: time }
    }

    /// Queues a message for the client.
    pub fn notify(&mut self, msg: ServerMsg)
        ensures
            final(self)@ == old(self)@.notified(msg@),
    {
        self.postbox.send_message(msg);
        assert(msgs_view(self.postbox.outbound@) =~= msgs_view(old(self).postbox.outbound@).push(
            msg@,
        ));
    }

    /// Puts the client into the state it asked for and tells it so.
    pub fn allow_state(&mut self, new_state: ClientState)
        ensures
            final(self)@ == old(self)@.allowed(new_state),
    {
        self.client_state = new_state;
        self.notify(ServerMsg::StateAnswer(Ok(new_state)));
    }

    /// Tells the client that its request failed; the state stays.
    pub fn error_state(&mut self, error: RequestStateError)
        ensures
            final(self)@ == old(self)@.refused(error),
    {
        let state = self.client_state;
        self.notify(ServerMsg::StateAnswer(Err((error, state))));
    }

    /// Puts the client into a state it did not ask for and tells it so.
    pub fn force_state(&mut self, new_state: ClientState)
        ensures
            final(self)@ == old(self)@.forced(new_state),
    {
        self.client_state = new_state;
        self.notify(ServerMsg::ForceState(new_state));
    }

    /// Whether the session is past registration.
    pub fn is_registered(&self) -> (r: bool)
        ensures
            r == self@.is_registered(),
    {
        match self.client_state {
            ClientState::Connected => false,
            _ => true,
        }
    }

    /// Whether the session is in the world, watching or playing.
    pub fn is_ingame(&self) -> (r: bool)
        ensures
            r == self@.is_ingame(),
    {
        match self.client_state {
            ClientState::Spectator | ClientState::Character | ClientState::Dead => true,
            _ => false,
        }
    }
}

/// The sessions of a registry as mathematical values.
pub open spec fn clients_view(clients: Seq<Client>) -> Seq<ClientView> {
    clients.map_values(|c: Client| c@)
}

/// The sessions after `msg` was queued for those that `select` marks.
pub open spec fn notified_where(
    clients: Seq<ClientView>,
    select: Seq<bool>,
    msg: ServerMsgView,
) -> Seq<ClientView> {
    Seq::new(
        clients.len(),
        |j: int|
            if 0 <= j < select.len() && select[j] {
                clients[j].notified(msg)
            } else {
                clients[j]
            },
    )
}

/// The choice of the sessions that are past registration.
pub open spec fn select_registered(clients: Seq<ClientView>) -> Seq<bool> {
    Seq::new(clients.len(), |j: int| clients[j].is_registered())
}

/// The choice of the sessions whose entity is `entity`.
pub open spec fn select_entity(clients: Seq<ClientView>, entity: u64) -> Seq<bool> {
    Seq::new(clients.len(), |j: int| clients[j].entity == entity)
}

/// The place of the first session whose entity is `entity`, or the number of
/// sessions if there is none.
pub open spec fn client_index(clients: Seq<ClientView>, entity: u64) -> int
    decreases clients.len(),
{
    if clients.len() == 0 {
        0
    } else if clients[0].entity == entity {
        0
    } else {
        1 + client_index(clients.drop_first(), entity)
    }
}

/// Whether the entities of the sessions rise with their places and stay
/// below `next_uid`: no two sessions share an entity.
pub open spec fn entities_rise(clients: Seq<ClientView>, next_uid: u64) -> bool {
    &&& forall|i: int, j: int|
        0 <= i < j < clients.len() ==> (#[trigger] clients[i]).entity < (
        #[trigger] clients[j]).entity
    &&& forall|i: int| 0 <= i < clients.len() ==> (#[trigger] clients[i]).entity < next_uid
}

/// The registry of sessions, in the order in which they connected.
#[derive(Debug, PartialEq, Eq)]
pub struct Clients {
    pub clients: Vec<Client>,
}

impl View for Clients {
    type V = Seq<ClientView>;

    open spec fn view(&self) -> Seq<ClientView> {
        clients_view(self.clients@)
    }
}

impl Clients {
    /// A registry without sessions.
    pub fn empty() -> (clients: Clients)
        ensures
            clients@ == Seq::<ClientView>::empty(),
    {
        let clients = Clients { clients: Vec::new() };
        assert(clients@ =~= Seq::<ClientView>::empty());
        clients
    }

    /// The number of sessions.
    pub fn len(&self) -> (n: usize)
        ensures
            n == self@.len(),
    {
        self.clients.len()
    }

    /// Adds a session behind the others.
    pub fn add(&mut self, client: Client)
        ensures
            final(self)@ == old(self)@.push(client@),
    {
        self.clients.push(client);
        assert(self@ =~= old(self)@.push(client@));
    }

    /// The place of the first session whose entity is `entity`.
    pub fn index_of(&self, entity: u64) -> (found: Option<usize>)
        ensures
            match found {
                Some(i) => i == client_index(self@, entity) && i < self@.len(),
                None => client_index(self@, entity) == self@.len(),
            },
    {
        let mut i: usize = 0;
        assert(self@.skip(0) =~= self@);
        while i < self.clients.len()
            invariant
                i <= self.clients.len(),
                client_index(self@, entity) == i + client_index(self@.skip(i as int), entity),
            decreases self.clients.len() - i,
        {
            assert(self@.skip(i as int)[0] == self@[i as int]);
            if self.clients[i].entity == entity {
                return Some(i);
            }
            assert(self@.skip(i as int).drop_first() =~= self@.skip(i as int + 1));
            i = i + 1;
        }
        None
    }

    /// Queues a copy of `msg` for every session that `select` marks.
    pub fn notify_where(&mut self, select: &Vec<bool>, msg: &ServerMsg)
        requires
            select.len() == old(self)@.len(),
        ensures
            final(self)@ == notified_where(old(self)@, select@, msg@),
    {
        let mut j: usize = 0;
        while j < self.clients.len()
            invariant
                j <= self.clients.len(),
                self.clients.len() == old(self).clients.len(),
                select.len() == self.clients.len(),
                forall|k: int|
                    0 <= k < j ==> (#[trigger] self.clients[k])@ == notified_where(
                        old(self)@,
                        select@,
                        msg@,
                    )[k],
                forall|k: int| j <= k < self.clients.len() ==> self.clients[k] == old(self).clients[k],
            decreases self.clients.len() - j,
        {
            if select[j] {
                self.clients[j].notify(msg.cloned());
            }
            j = j + 1;
        }
        assert(self@ =~= notified_where(old(self)@, select@, msg@));
    }

    /// Queues `msg` for the sessions whose entity is `entity`.
    pub fn notify(&mut self, entity: u64, msg: ServerMsg)
        ensures
            final(self)@ == notified_where(old(self)@, select_entity(old(self)@, entity), msg@),
    {
        let mut select: Vec<bool> = Vec::new();
        let mut j: usize = 0;
        while j < self.clients.len()
            invariant
                j <= self.clients.len(),
                select.len() == j,
                forall|k: int| 0 <= k < j ==> select[k] == (self@[k].entity == entity),
            decreases self.clients.len() - j,
        {
            select.push(self.clients[j].entity == entity);
            j = j + 1;
        }
        assert(select@ =~= select_entity(self@, entity));
        self.notify_where(&select, &msg);
    }

    /// Queues `msg` for every session that is past registration.
    pub fn notify_registered(&mut self, msg: ServerMsg)
        ensures
            final(self)@ == notified_where(old(self)@, select_registered(old(self)@), msg@),
    {
        let mut select: Vec<bool> = Vec::new();
        let mut j: usize = 0;
        while j < self.clients.len()
            invariant
                j <= self.clients.len(),
                select.len() == j,
                forall|k: int| 0 <= k < j ==> select[k] == self@[k].is_registered(),
            decreases self.clients.len() - j,
        {
            select.push(self.clients[j].is_registered());
            j = j + 1;
        }
        assert(select@ =~= select_registered(self@));
        self.notify_where(&select, &msg);
    }
}

} // verus!
