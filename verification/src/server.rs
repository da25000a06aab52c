//! The server: its state, its sessions, and what stands between the two.

use crate::auth_provider::{aliases_differ, AccountsView, AuthProvider};
use crate::client::{
    clients_view, entities_rise, notified_where, postboxes_view, select_registered, Client,
    ClientView, Clients, PostBox, PostBoxView,
};
use crate::collections::{BlockPos, ChunkKey, KeySet};
use crate::comp::{entities_view, Entity, EntityView};
use crate::msg::{
    ClientState, RequestStateError, ServerInfo, ServerInfoView, ServerMsg, ServerMsgView,
};
use crate::provider::{LoadError, Provider, SaveMsg, WorldFiles, WorldSource};
use crate::settings::{ServerSettings, SettingsView};
use crate::state::{State, StateView};
use crate::terrain::ChunkView;
use vstd::prelude::*;

verus! {

/// The block in which a player enters the world.
pub open spec fn default_spawn_point() -> BlockPos {
    (16_384, 16_384, 512)
}

/// The server.
#[derive(Debug, PartialEq, Eq)]
pub struct Server {
    pub state: State,
    pub world_provider: Provider,
    pub clients: Clients,
    /// The keys of the chunks that a worker was asked for and that did not
    /// come back yet.
    pub pending_chunks: KeySet,
    pub server_settings: ServerSettings,
    pub server_info: ServerInfo,
    pub accounts: AuthProvider,
    pub spawn_point: BlockPos,
    /// The mailboxes of the connections that ended, with what is still to
    /// be sent through them: those of the sessions that were torn down, and
    /// those of the connections that were turned away. The host sends what
    /// they hold, closes the connections and empties the list.
    pub closed: Vec<PostBox>,
}

/// A [`Server`] as a mathematical value.
pub struct ServerView {
    pub state: StateView,
    /// Where the world comes from.
    pub world: WorldSource,
    /// The save buffer.
    pub buffer: Map<ChunkKey, ChunkView>,
    pub clients: Seq<ClientView>,
    pub pending: Set<ChunkKey>,
    pub settings: SettingsView,
    pub info: ServerInfoView,
    pub accounts: AccountsView,
    pub spawn_point: BlockPos,
    pub closed: Seq<PostBoxView>,
}

impl ServerView {
    /// Whether the server is well-formed: no two entities share a uid, no
    /// two sessions share an entity, the next uid is fresh, and no two
    /// accounts share an alias.
    pub open spec fn wf(self) -> bool {
        self.state.wf() && entities_rise(self.clients, self.state.next_uid) && aliases_differ(
            self.accounts,
        )
    }

    /// The server with the session at a place replaced.
    pub open spec fn with_client(self, i: int, client: ClientView) -> ServerView {
        ServerView { clients: self.clients.update(i, client), ..self }
    }

    /// The server with the entity at a place replaced.
    pub open spec fn with_entity(self, j: int, entity: EntityView) -> ServerView {
        ServerView {
            state: StateView { entities: self.state.entities.update(j, entity), ..self.state },
            ..self
        }
    }
}

impl View for Server {
    type V = ServerView;

    open spec fn view(&self) -> ServerView {
        ServerView {
            state: self.state@,
            world: self.world_provider.world,
            buffer: self.world_provider.buffer(),
            clients: self.clients@,
            pending: self.pending_chunks@,
            settings: self.server_settings@,
            info: self.server_info@,
            accounts: self.accounts@,
            spawn_point: self.spawn_point,
            closed: postboxes_view(self.closed@),
        }
    }
}

/// Replacing a session replaces its view.
pub proof fn lemma_client_update(before: Seq<Client>, after: Seq<Client>, i: int)
    requires
        0 <= i < before.len(),
        after.len() == before.len(),
        forall|k: int| 0 <= k < before.len() && k != i ==> after[k] == before[k],
    ensures
        clients_view(after) == clients_view(before).update(i, after[i]@),
{
    assert(clients_view(after) =~= clients_view(before).update(i, after[i]@));
}

/// Replacing an entity replaces its view.
pub proof fn lemma_entity_update(before: Seq<Entity>, after: Seq<Entity>, j: int)
    requires
        0 <= j < before.len(),
        after.len() == before.len(),
        forall|k: int| 0 <= k < before.len() && k != j ==> after[k] == before[k],
    ensures
        entities_view(after) == entities_view(before).update(j, after[j]@),
{
    assert(entities_view(after) =~= entities_view(before).update(j, after[j]@));
}

impl Server {
    /// A server with the settings, for the world that was loaded or, if
    /// loading failed, for a world to generate at the seed of the settings.
    /// It has no sessions, no entities and no terrain, and its day starts at
    /// the time that the settings give.
    pub fn new(settings: ServerSettings, loaded: Result<WorldFiles, LoadError>, git_hash: String) -> (r:
        Result<Server, crate::event::Error>)
        ensures
            r is Ok,
            r->Ok_0@.settings == settings@,
            r->Ok_0@.clients == Seq::<ClientView>::empty(),
            r->Ok_0@.pending == Set::<ChunkKey>::empty(),
            r->Ok_0@.buffer == Map::<ChunkKey, ChunkView>::empty(),
            r->Ok_0@.accounts == Seq::<(Seq<char>, Seq<char>)>::empty(),
            r->Ok_0@.spawn_point == default_spawn_point(),
            r->Ok_0@.closed == Seq::<PostBoxView>::empty(),
            r->Ok_0@.wf(),
            r->Ok_0@.state == (StateView { time_of_day: settings.start_time, ..StateView::initial() }),
            r->Ok_0@.info == (ServerInfoView {
                name: settings.server_name@,
                description: settings.server_description@,
                git_hash: git_hash@,
            }),
            match loaded {
                Ok(files) => r->Ok_0@.world == WorldSource::Loaded(files),
                Err(_) => r->Ok_0@.world == WorldSource::Generated(settings.world_seed),
            },
    {
        let mut state = State::new();
        state.time_of_day = settings.start_time;
        let provider = Provider::new(settings.world_seed, loaded);
        let server_info = ServerInfo {
            name: settings.server_name.clone(),
            description: settings.server_description.clone(),
            git_hash,
        };
        let closed: Vec<PostBox> = Vec::new();
        assert(postboxes_view(closed@) =~= Seq::<PostBoxView>::empty());
        Ok(
            Server {
                closed,
                state,
                world_provider: provider,
                clients: Clients::empty(),
                pending_chunks: KeySet::new(),
                server_info,
                accounts: AuthProvider::new(),
                server_settings: settings,
                spawn_point: (16_384, 16_384, 512),
            },
        )
    }

    /// The game state.
    pub fn state(&self) -> (state: &State)
        ensures
            state == &self.state,
    {
        &self.state
    }

    /// The game state, to change it.
    pub fn state_mut(&mut self) -> (state: &mut State)
        ensures
            *state == old(self).state,
            final(self).state == *final(state),
            final(self).world_provider == old(self).world_provider,
            final(self).clients == old(self).clients,
            final(self).pending_chunks == old(self).pending_chunks,
            final(self).server_settings == old(self).server_settings,
            final(self).server_info == old(self).server_info,
            final(self).accounts == old(self).accounts,
            final(self).spawn_point == old(self).spawn_point,
            final(self).closed == old(self).closed,
    {
        &mut self.state
    }

    /// The provider of the world.
    pub fn world(&self) -> (provider: &Provider)
        ensures
            provider == &self.world_provider,
    {
        &self.world_provider
    }

    /// Empties the record of terrain changes.
    pub fn cleanup(&mut self)
        ensures
            final(self)@ == (ServerView {
                state: StateView {
                    changes: crate::state::ChangesView::empty(),
                    ..old(self)@.state
                },
                ..old(self)@
            }),
            old(self)@.wf() ==> final(self)@.wf(),
            final(self)@.world == old(self)@.world,
    {
        self.state.cleanup();
    }

    /// Shuts the server down: the sessions that are past registration are
    /// told so, and the message that ends the save loop is handed out.
    pub fn shutdown(&mut self) -> (msg: SaveMsg)
        ensures
            msg == SaveMsg::END,
            final(self)@ == (ServerView {
                clients: notified_where(
                    old(self)@.clients,
                    select_registered(old(self)@.clients),
                    ServerMsgView::Shutdown,
                ),
                ..old(self)@
            }),
            old(self)@.wf() ==> final(self)@.wf(),
            final(self)@.world == old(self)@.world,
    {
        self.clients.notify_registered(ServerMsg::Shutdown);
        SaveMsg::END
    }

    /// Queues a message for the session at a place.
    pub fn client_notify(&mut self, i: usize, msg: ServerMsg)
        requires
            i < old(self)@.clients.len(),
        ensures
            final(self)@ == old(self)@.with_client(i as int, old(self)@.clients[i as int].notified(msg@)),
            old(self)@.wf() ==> final(self)@.wf(),
            final(self)@.world == old(self)@.world,
    {
        self.clients.clients[i].notify(msg);
        proof {
            lemma_client_update(old(self).clients.clients@, self.clients.clients@, i as int);
        }
    }

    /// Puts the session at a place into the state it asked for.
    pub fn client_allow(&mut self, i: usize, state: ClientState)
        requires
            i < old(self)@.clients.len(),
        ensures
            final(self)@ == old(self)@.with_client(i as int, old(self)@.clients[i as int].allowed(state)),
            old(self)@.wf() ==> final(self)@.wf(),
            final(self)@.world == old(self)@.world,
    {
        self.clients.clients[i].allow_state(state);
        proof {
            lemma_client_update(old(self).clients.clients@, self.clients.clients@, i as int);
        }
    }

    /// Tells the session at a place that its request failed.
    pub fn client_refuse(&mut self, i: usize, error: RequestStateError)
        requires
            i < old(self)@.clients.len(),
        ensures
            final(self)@ == old(self)@.with_client(i as int, old(self)@.clients[i as int].refused(error)),
            old(self)@.wf() ==> final(self)@.wf(),
            final(self)@.world == old(self)@.world,
    {
        self.clients.clients[i].error_state(error);
        proof {
            lemma_client_update(old(self).clients.clients@, self.clients.clients@, i as int);
        }
    }

    /// Puts the session at a place into a state it did not ask for.
    pub fn client_force(&mut self, i: usize, state: ClientState)
        requires
            i < old(self)@.clients.len(),
        ensures
            final(self)@ == old(self)@.with_client(i as int, old(self)@.clients[i as int].forced(state)),
            old(self)@.wf() ==> final(self)@.wf(),
            final(self)@.world == old(self)@.world,
    {
        self.clients.clients[i].force_state(state);
        proof {
            lemma_client_update(old(self).clients.clients@, self.clients.clients@, i as int);
        }
    }
}

} // verus!
