//! Bringing the clients up to date with the state of the world.

use crate::client::{client_index, notified_where, select_entity, select_registered, ClientView};
use crate::collections::BlockPos;
use crate::comp::{EntityView, StatsView, Synced};
use crate::event::{events_view, push_event, Event, EventView};
use crate::interest::{entity_in_vd, in_view};
use crate::messages::with_entity_of;
use crate::msg::{chat_view, ChatType, ClientState, ServerMsg, ServerMsgView};
use crate::server::{lemma_entity_update, Server, ServerView};
use crate::state::{entity_of, lemma_entity_index, lemma_same_uids_rise, StateView};
use crate::stats::{wrap_u32, Exp, Health, HealthSource};
use crate::terrain::chunk_of;
use vstd::prelude::*;

verus! {

/// How far a respawned entity is lifted above where it died, in blocks.
pub const RESPAWN_LIFT: i32 = 20;

/// Whether a block position is in view of the client whose entity has the
/// uid: the entity has a position and a player with a view distance, and
/// the chunk of the position is in view from the chunk of the entity.
pub open spec fn client_sees(entities: Seq<EntityView>, client_uid: u64, pos: BlockPos) -> bool {
    match entity_of(entities, client_uid) {
        Some(own) => own.pos is Some && own.player is Some && own.player->0.view_distance is Some
            && in_view(chunk_of(own.pos->0), chunk_of(pos), own.player->0.view_distance->0),
        None => false,
    }
}

/// Whether a session is told of a change of the physics of an entity: it is
/// in the world, the entity is in its view, and the entity is not its own,
/// unless the entity is marked so that its owner is told too.
pub open spec fn watches(server: ServerView, client: ClientView, entity: EntityView) -> bool {
    client.is_ingame() && entity.pos is Some && client_sees(
        server.state.entities,
        client.entity,
        entity.pos->0,
    ) && (entity.force_update || client.entity != entity.uid)
}

/// The choice of the sessions that are told of a change of the physics of
/// an entity.
pub open spec fn select_watchers(server: ServerView, entity: EntityView) -> Seq<bool> {
    Seq::new(server.clients.len(), |k: int| watches(server, server.clients[k], entity))
}

/// The sessions after those that `select` marks were told of `msg`, if
/// `due` holds; else the sessions as they are.
pub open spec fn told_if(
    clients: Seq<ClientView>,
    due: bool,
    select: Seq<bool>,
    msg: ServerMsgView,
) -> Seq<ClientView> {
    if due {
        notified_where(clients, select, msg)
    } else {
        clients
    }
}

/// An entity whose physics the clients were told of.
pub open spec fn settled(entity: EntityView) -> EntityView {
    EntityView {
        pos_changed: false,
        vel: Synced { changed: false, ..entity.vel },
        ori: Synced { changed: false, ..entity.ori },
        action_state: Synced { changed: false, ..entity.action_state },
        ..entity
    }
}

/// The server after the clients were told of the physics of the entity at
/// the place `j`: of each of position, velocity, orientation and action
/// state that the entity has and that changed, once, the sessions that
/// watch it are told. An entity without a position is passed over.
pub open spec fn physics_synced(server: ServerView, j: int) -> ServerView {
    let entity = server.state.entities[j];
    if entity.pos is Some {
        let select = select_watchers(server, entity);
        let uid = entity.uid;
        let c1 = told_if(
            server.clients,
            entity.pos_changed,
            select,
            ServerMsgView::EntityPos { entity: uid },
        );
        let c2 = told_if(
            c1,
            entity.vel.present && entity.vel.changed,
            select,
            ServerMsgView::EntityVel { entity: uid },
        );
        let c3 = told_if(
            c2,
            entity.ori.present && entity.ori.changed,
            select,
            ServerMsgView::EntityOri { entity: uid },
        );
        let c4 = told_if(
            c3,
            entity.action_state.present && entity.action_state.changed,
            select,
            ServerMsgView::EntityActionState { entity: uid },
        );
        ServerView { clients: c4, ..server }.with_entity(j, settled(entity))
    } else {
        server
    }
}

/// The server after the clients were told of the physics of the first `n`
/// entities.
pub open spec fn physics_synced_upto(server: ServerView, n: int) -> ServerView
    decreases n,
{
    if n <= 0 {
        server
    } else {
        physics_synced(physics_synced_upto(server, n - 1), n - 1)
    }
}

/// The line that reports a death.
pub open spec fn death_text(entities: Seq<EntityView>, alias: Seq<char>, cause: HealthSource) -> Seq<
    char,
> {
    match cause {
        HealthSource::Attack { by } => match entity_of(entities, by) {
            Some(attacker) => match attacker.player {
                Some(p) => alias + " was killed by "@ + p.alias,
                None => alias + " died"@,
            },
            None => alias + " died"@,
        },
        _ => alias + " died"@,
    }
}

/// The experience that a kill is worth.
pub open spec fn exp_award(victim: StatsView) -> int {
    victim.health.maximum / 10 + victim.level.amount * 10
}

/// An entity that was given experience.
pub open spec fn rewarded(entity: EntityView, award: int) -> EntityView {
    match entity.stats {
        Some(stats) => EntityView {
            stats: Some(
                StatsView {
                    exp: Exp {
                        current: wrap_u32(stats.exp.current + award) as u32,
                        ..stats.exp
                    },
                    ..stats
                },
            ),
            ..entity
        },
        None => entity,
    }
}

/// The server after the death of the entity at the place `j` was made
/// known, if the entity is dying: if a player is behind it, the sessions
/// that are past registration get a line; if it was killed in an attack,
/// the attacker gets experience.
pub open spec fn death_told(server: ServerView, j: int) -> ServerView {
    let entity = server.state.entities[j];
    match entity.dying {
        Some(dying) => {
            let told = match entity.player {
                Some(p) => ServerView {
                    clients: notified_where(
                        server.clients,
                        select_registered(server.clients),
                        chat_view(
                            ChatType::Kill,
                            death_text(server.state.entities, p.alias, dying.cause),
                        ),
                    ),
                    ..server
                },
                None => server,
            };
            match entity.stats {
                Some(stats) => match dying.cause {
                    HealthSource::Attack { by } => with_entity_of(
                        told,
                        by,
                        |a: EntityView| rewarded(a, exp_award(stats)),
                    ),
                    _ => told,
                },
                None => told,
            }
        },
        None => server,
    }
}

/// The server after the deaths among the first `n` entities were made
/// known.
pub open spec fn deaths_told(server: ServerView, n: int) -> ServerView
    decreases n,
{
    if n <= 0 {
        server
    } else {
        death_told(deaths_told(server, n - 1), n - 1)
    }
}

/// The uids of those of the first `n` entities that are dying, in order.
pub open spec fn dying_uids(entities: Seq<EntityView>, n: int) -> Seq<u64>
    decreases n,
{
    if n <= 0 {
        Seq::empty()
    } else if entities[n - 1].dying is Some {
        dying_uids(entities, n - 1).push(entities[n - 1].uid)
    } else {
        dying_uids(entities, n - 1)
    }
}

/// The uids of those of the first `n` entities that are to respawn, in
/// order.
pub open spec fn respawning_uids(entities: Seq<EntityView>, n: int) -> Seq<u64>
    decreases n,
{
    if n <= 0 {
        Seq::empty()
    } else if entities[n - 1].respawning {
        respawning_uids(entities, n - 1).push(entities[n - 1].uid)
    } else {
        respawning_uids(entities, n - 1)
    }
}

/// What becomes of a dying entity: if a session stands behind it, the
/// entity stops, and the session is put into the state `Dead`; else the
/// entity is removed, and the host is told.
pub open spec fn killed(server: ServerView, events: Seq<EventView>, uid: u64) -> (
    ServerView,
    Seq<EventView>,
) {
    let i = client_index(server.clients, uid);
    if i < server.clients.len() {
        (
            with_entity_of(
                server,
                uid,
                |e: EntityView|
                    EntityView {
                        vel: Synced { present: true, changed: true },
                        force_update: true,
                        ..e
                    },
            ).with_client(i, server.clients[i].forced(ClientState::Dead)),
            events,
        )
    } else {
        (
            ServerView { state: server.state.without_entity(uid), ..server },
            events.push(EventView::EntityDeleted { entity: uid }),
        )
    }
}

/// What becomes of the first `n` of a list of dying entities.
pub open spec fn killed_upto(server: ServerView, events: Seq<EventView>, uids: Seq<u64>, n: int) -> (
    ServerView,
    Seq<EventView>,
)
    decreases n,
{
    if n <= 0 {
        (server, events)
    } else {
        let (s, e) = killed_upto(server, events, uids, n - 1);
        killed(s, e, uids[n - 1])
    }
}

/// The height of an entity that was lifted for its respawn.
pub open spec fn lifted(z: i32) -> i32 {
    if z + RESPAWN_LIFT > i32::MAX {
        i32::MAX
    } else {
        (z + RESPAWN_LIFT) as i32
    }
}

/// An entity that came back to life: with full health, a little above where
/// it died, and marked so that its owner takes the new position.
pub open spec fn revived(entity: EntityView) -> EntityView {
    EntityView {
        stats: match entity.stats {
            Some(stats) => Some(
                StatsView {
                    health: Health {
                        current: stats.health.maximum,
                        last_change: Some(
                            (
                                (stats.health.maximum - stats.health.current) as i32,
                                HealthSource::Revive,
                            ),
                        ),
                        ..stats.health
                    },
                    is_dead: false,
                    ..stats
                },
            ),
            None => None,
        },
        pos: match entity.pos {
            Some(pos) => Some((pos.0, pos.1, lifted(pos.2))),
            None => None,
        },
        pos_changed: entity.pos_changed || entity.pos is Some,
        force_update: true,
        ..entity
    }
}

/// What becomes of an entity that is to respawn: if a session stands behind
/// it, the session becomes `Character` again, the entity comes back to
/// life, and the host is told; else nothing happens.
pub open spec fn respawned(server: ServerView, events: Seq<EventView>, uid: u64) -> (
    ServerView,
    Seq<EventView>,
) {
    let i = client_index(server.clients, uid);
    if i < server.clients.len() {
        (
            with_entity_of(server, uid, |e: EntityView| revived(e)).with_client(
                i,
                server.clients[i].allowed(ClientState::Character),
            ),
            events.push(EventView::Respawned { entity: uid }),
        )
    } else {
        (server, events)
    }
}

/// What becomes of the first `n` of a list of entities that are to respawn.
pub open spec fn respawned_upto(
    server: ServerView,
    events: Seq<EventView>,
    uids: Seq<u64>,
    n: int,
) -> (ServerView, Seq<EventView>)
    decreases n,
{
    if n <= 0 {
        (server, events)
    } else {
        let (s, e) = respawned_upto(server, events, uids, n - 1);
        respawned(s, e, uids[n - 1])
    }
}

/// The sessions after the owners of those of the first `n` entities whose
/// inventory changed were told so.
pub open spec fn inventories_told(server: ServerView, n: int) -> Seq<ClientView>
    decreases n,
{
    if n <= 0 {
        server.clients
    } else {
        let entity = server.state.entities[n - 1];
        let before = inventories_told(server, n - 1);
        if entity.has_inventory && entity.inventory_update {
            notified_where(
                before,
                select_entity(before, entity.uid),
                ServerMsgView::InventoryUpdate,
            )
        } else {
            before
        }
    }
}

/// The entities with the marks of one tick taken off.
pub open spec fn unmarked(entities: Seq<EntityView>) -> Seq<EntityView> {
    entities.map_values(
        |e: EntityView| EntityView { force_update: false, inventory_update: false, ..e },
    )
}

/// The server and the events after the clients were brought up to date:
/// the sessions past registration are told to take the state of the
/// entities; deaths are made known and carried out; respawns are carried
/// out; the changes of physics are passed to the sessions that watch;
/// changed inventories are passed to their owners; and the marks of the
/// tick are taken off the entities.
pub open spec fn clients_synced(server: ServerView, events: Seq<EventView>) -> (
    ServerView,
    Seq<EventView>,
) {
    let announced = ServerView {
        clients: notified_where(
            server.clients,
            select_registered(server.clients),
            ServerMsgView::EcsSync,
        ),
        ..server
    };
    let mourned = deaths_told(announced, announced.state.entities.len() as int);
    let dying = dying_uids(mourned.state.entities, mourned.state.entities.len() as int);
    let (buried, events) = killed_upto(mourned, events, dying, dying.len() as int);
    let respawning = respawning_uids(buried.state.entities, buried.state.entities.len() as int);
    let (risen, events) = respawned_upto(buried, events, respawning, respawning.len() as int);
    let moved = physics_synced_upto(risen, risen.state.entities.len() as int);
    let told = ServerView {
        clients: inventories_told(moved, moved.state.entities.len() as int),
        ..moved
    };
    (
        ServerView {
            state: StateView { entities: unmarked(told.state.entities), ..told.state },
            ..told
        },
        events,
    )
}

impl Server {
    /// Whether a block position is in view of the client whose entity has
    /// the uid.
    pub fn client_sees(&self, client_uid: u64, pos: BlockPos) -> (r: bool)
        ensures
            r == client_sees(self@.state.entities, client_uid, pos),
    {
        proof {
            lemma_entity_index(self@.state.entities, client_uid);
        }
        match self.state.find_entity(client_uid) {
            Some(k) => {
                let own = &self.state.entities[k];
                match (&own.pos, &own.player) {
                    (Some(own_pos), Some(player)) => match player.view_distance {
                        Some(vd) => entity_in_vd(*own_pos, pos, vd),
                        None => false,
                    },
                    _ => false,
                }
            },
            None => false,
        }
    }

    /// The choice of the sessions that are told of a change of the physics
    /// of the entity at the place `j`.
    fn watchers(&self, j: usize) -> (select: Vec<bool>)
        requires
            j < self.state.entities.len(),
        ensures
            select@ == select_watchers(self@, self@.state.entities[j as int]),
    {
        let uid = self.state.entities[j].uid;
        let force = self.state.entities[j].force_update;
        let mut select: Vec<bool> = Vec::new();
        let mut k: usize = 0;
        while k < self.clients.clients.len()
            invariant
                k <= self.clients.clients.len(),
                j < self.state.entities.len(),
                uid == self.state.entities[j as int].uid,
                force == self.state.entities[j as int].force_update,
                select.len() == k,
                forall|m: int|
                    0 <= m < k ==> select[m] == watches(
                        self@,
                        #[trigger] self@.clients[m],
                        self@.state.entities[j as int],
                    ),
            decreases self.clients.clients.len() - k,
        {
            let client = &self.clients.clients[k];
            let seen = match self.state.entities[j].pos {
                Some(pos) => client.is_ingame() && self.client_sees(client.entity, pos) && (force
                    || client.entity != uid),
                None => false,
            };
            select.push(seen);
            k = k + 1;
        }
        assert(select@ =~= select_watchers(self@, self@.state.entities[j as int]));
        select
    }

    /// Tells the sessions that `select` marks of each of the four physical
    /// values of the entity with the uid that is due.
    fn tell_physics(
        &mut self,
        select: &Vec<bool>,
        uid: u64,
        pos_due: bool,
        vel_due: bool,
        ori_due: bool,
        action_due: bool,
    )
        requires
            select.len() == old(self)@.clients.len(),
        ensures
            final(self)@ == (ServerView {
                clients: told_if(
                    told_if(
                        told_if(
                            told_if(
                                old(self)@.clients,
                                pos_due,
                                select@,
                                ServerMsgView::EntityPos { entity: uid },
                            ),
                            vel_due,
                            select@,
                            ServerMsgView::EntityVel { entity: uid },
                        ),
                        ori_due,
                        select@,
                        ServerMsgView::EntityOri { entity: uid },
                    ),
                    action_due,
                    select@,
                    ServerMsgView::EntityActionState { entity: uid },
                ),
                ..old(self)@
            }),
            final(self).state == old(self).state,
            old(self)@.wf() ==> final(self)@.wf(),
            final(self)@.world == old(self)@.world,
    {
        if pos_due {
            self.clients.notify_where(select, &ServerMsg::EntityPos { entity: uid });
        }
        if vel_due {
            self.clients.notify_where(select, &ServerMsg::EntityVel { entity: uid });
        }
        if ori_due {
            self.clients.notify_where(select, &ServerMsg::EntityOri { entity: uid });
        }
        if action_due {
            self.clients.notify_where(select, &ServerMsg::EntityActionState { entity: uid });
        }
    }

    /// Notes that the clients were told of the physics of the entity at the
    /// place `j`.
    fn settle(&mut self, j: usize)
        requires
            j < old(self).state.entities.len(),
        ensures
            final(self)@ == old(self)@.with_entity(j as int, settled(old(self)@.state.entities[j as int])),
            final(self).state.entities.len() == old(self).state.entities.len(),
            old(self)@.wf() ==> final(self)@.wf(),
            final(self)@.world == old(self)@.world,
    {
        let entity = &mut self.state.entities[j];
        entity.pos_changed = false;
        entity.vel = Synced { present: entity.vel.present, changed: false };
        entity.ori = Synced { present: entity.ori.present, changed: false };
        entity.action_state = Synced { present: entity.action_state.present, changed: false };
        proof {
            lemma_entity_update(old(self).state.entities@, self.state.entities@, j as int);
            assert(self.state.entities[j as int]@ == settled(old(self)@.state.entities[j as int]));
            if old(self)@.wf() {
                lemma_same_uids_rise(
                    old(self)@.state.entities,
                    self@.state.entities,
                    old(self)@.state.next_uid,
                    old(self)@.state.next_uid,
                );
            }
        }
    }

    /// Tells the sessions that watch the entity at the place `j` of what
    /// changed of its physics.
    pub fn sync_physics_of(&mut self, j: usize)
        requires
            j < old(self).state.entities.len(),
        ensures
            final(self)@ == physics_synced(old(self)@, j as int),
            final(self).state.entities.len() == old(self).state.entities.len(),
            old(self)@.wf() ==> final(self)@.wf(),
            final(self)@.world == old(self)@.world,
    {
        if self.state.entities[j].pos.is_some() {
            let select = self.watchers(j);
            let uid = self.state.entities[j].uid;
            let pos_due = self.state.entities[j].pos_changed;
            let vel_due = self.state.entities[j].vel.present && self.state.entities[j].vel.changed;
            let ori_due = self.state.entities[j].ori.present && self.state.entities[j].ori.changed;
            let action_due = self.state.entities[j].action_state.present
                && self.state.entities[j].action_state.changed;
            self.tell_physics(&select, uid, pos_due, vel_due, ori_due, action_due);
            self.settle(j);
        }
    }

    /// Tells the sessions of what changed of the physics of the entities.
    pub fn sync_physics(&mut self)
        ensures
            final(self)@ == physics_synced_upto(
                old(self)@,
                old(self)@.state.entities.len() as int,
            ),
            final(self).state.entities.len() == old(self).state.entities.len(),
            old(self)@.wf() ==> final(self)@.wf(),
            final(self)@.world == old(self)@.world,
    {
        let n = self.state.entities.len();
        let mut j: usize = 0;
        while j < n
            invariant
                old(self)@.wf() ==> self@.wf(),
                self@.world == old(self)@.world,
                j <= n,
                n == self.state.entities.len(),
                n == old(self).state.entities.len(),
                self@ == physics_synced_upto(old(self)@, j as int),
            decreases n - j,
        {
            self.sync_physics_of(j);
            j = j + 1;
        }
    }

    /// The line that reports the death of a player.
    fn death_line(&self, alias: &String, cause: HealthSource) -> (text: String)
        ensures
            text@ == death_text(self@.state.entities, alias@, cause),
    {
        let mut text = alias.clone();
        match cause {
            HealthSource::Attack { by } => {
                proof {
                    lemma_entity_index(self@.state.entities, by);
                }
                match self.state.find_entity(by) {
                    Some(a) => match &self.state.entities[a].player {
                        Some(attacker) => {
                            text.append(" was killed by ");
                            text.append(attacker.alias.as_str());
                        },
                        None => {
                            text.append(" died");
                        },
                    },
                    None => {
                        text.append(" died");
                    },
                }
            },
            _ => {
                text.append(" died");
            },
        }
        text
    }

    /// Gives experience to the first entity with the uid, if it has
    /// statistics.
    fn reward(&mut self, uid: u64, award: i64)
        requires
            0 <= award <= 0xffff_ffff * 11,
        ensures
            final(self)@ == with_entity_of(
                old(self)@,
                uid,
                |a: EntityView| rewarded(a, award as int),
            ),
            final(self).state.entities.len() == old(self).state.entities.len(),
            old(self)@.wf() ==> final(self)@.wf(),
            final(self)@.world == old(self)@.world,
    {
        match self.state.find_entity(uid) {
            Some(a) => {
                match &mut self.state.entities[a].stats {
                    Some(stats) => {
                        stats.exp.change_by(award);
                    },
                    None => {},
                }
                proof {
                    lemma_entity_update(old(self).state.entities@, self.state.entities@, a as int);
                    assert(old(self)@.state.entities.update(a as int, old(self)@.state.entities[a as int])
                        =~= old(self)@.state.entities);
                }
            },
            None => {},
        }
    }

    /// Makes the death of the entity at the place `j` known, if it is dying.
    pub fn tell_death(&mut self, j: usize)
        requires
            j < old(self).state.entities.len(),
        ensures
            final(self)@ == death_told(old(self)@, j as int),
            final(self).state.entities.len() == old(self).state.entities.len(),
            old(self)@.wf() ==> final(self)@.wf(),
            final(self)@.world == old(self)@.world,
    {
        let cause = match self.state.entities[j].dying {
            Some(dying) => dying.cause,
            None => {
                return ;
            },
        };
        let line = match &self.state.entities[j].player {
            Some(player) => Some(self.death_line(&player.alias, cause)),
            None => None,
        };
        let award: Option<i64> = match &self.state.entities[j].stats {
            Some(stats) => Some(
                (stats.health.maximum / 10) as i64 + (stats.level.amount as i64) * 10,
            ),
            None => None,
        };
        match line {
            Some(text) => {
                self.clients.notify_registered(ServerMsg::kill(text));
            },
            None => {},
        }
        match (award, cause) {
            (Some(award), HealthSource::Attack { by }) => {
                self.reward(by, award);
            },
            _ => {},
        }
    }

    /// Makes the deaths of the dying entities known.
    pub fn tell_deaths(&mut self)
        ensures
            final(self)@ == deaths_told(old(self)@, old(self)@.state.entities.len() as int),
            final(self).state.entities.len() == old(self).state.entities.len(),
            old(self)@.wf() ==> final(self)@.wf(),
            final(self)@.world == old(self)@.world,
    {
        let n = self.state.entities.len();
        let mut j: usize = 0;
        while j < n
            invariant
                old(self)@.wf() ==> self@.wf(),
                self@.world == old(self)@.world,
                j <= n,
                n == self.state.entities.len(),
                n == old(self).state.entities.len(),
                self@ == deaths_told(old(self)@, j as int),
            decreases n - j,
        {
            self.tell_death(j);
            j = j + 1;
        }
    }

    /// The uids of the dying entities, in order.
    fn uids_dying(&self) -> (uids: Vec<u64>)
        ensures
            uids@ == dying_uids(self@.state.entities, self@.state.entities.len() as int),
    {
        let mut uids: Vec<u64> = Vec::new();
        let mut j: usize = 0;
        while j < self.state.entities.len()
            invariant
                j <= self.state.entities.len(),
                uids@ == dying_uids(self@.state.entities, j as int),
            decreases self.state.entities.len() - j,
        {
            if self.state.entities[j].dying.is_some() {
                uids.push(self.state.entities[j].uid);
            }
            j = j + 1;
        }
        uids
    }

    /// The uids of the entities that are to respawn, in order.
    fn uids_respawning(&self) -> (uids: Vec<u64>)
        ensures
            uids@ == respawning_uids(self@.state.entities, self@.state.entities.len() as int),
    {
        let mut uids: Vec<u64> = Vec::new();
        let mut j: usize = 0;
        while j < self.state.entities.len()
            invariant
                j <= self.state.entities.len(),
                uids@ == respawning_uids(self@.state.entities, j as int),
            decreases self.state.entities.len() - j,
        {
            if self.state.entities[j].respawning {
                uids.push(self.state.entities[j].uid);
            }
            j = j + 1;
        }
        uids
    }

    /// Carries out the death of the entity with the uid.
    pub fn kill(&mut self, events: &mut Vec<Event>, uid: u64)
        ensures
            (final(self)@, events_view(final(events)@)) == killed(
                old(self)@,
                events_view(old(events)@),
                uid,
            ),
            old(self)@.wf() ==> final(self)@.wf(),
            final(self)@.world == old(self)@.world,
    {
        match self.clients.index_of(uid) {
            Some(i) => {
                match self.state.find_entity(uid) {
                    Some(j) => {
                        let entity = &mut self.state.entities[j];
                        entity.vel = Synced { present: true, changed: true };
                        entity.force_update = true;
                        proof {
                            lemma_entity_update(
                                old(self).state.entities@,
                                self.state.entities@,
                                j as int,
                            );
                        }
                    },
                    None => {},
                }
                self.client_force(i, ClientState::Dead);
            },
            None => {
                self.state.delete_entity(uid);
                push_event(events, Event::EntityDeleted { entity: uid });
            },
        }
    }

    /// Carries out the deaths of the entities with the uids, in order.
    fn kill_all(&mut self, events: &mut Vec<Event>, uids: &Vec<u64>)
        ensures
            (final(self)@, events_view(final(events)@)) == killed_upto(
                old(self)@,
                events_view(old(events)@),
                uids@,
                uids@.len() as int,
            ),
            old(self)@.wf() ==> final(self)@.wf(),
            final(self)@.world == old(self)@.world,
    {
        let mut k: usize = 0;
        while k < uids.len()
            invariant
                old(self)@.wf() ==> self@.wf(),
                self@.world == old(self)@.world,
                k <= uids.len(),
                (self@, events_view(events@)) == killed_upto(
                    old(self)@,
                    events_view(old(events)@),
                    uids@,
                    k as int,
                ),
            decreases uids.len() - k,
        {
            self.kill(events, uids[k]);
            k = k + 1;
        }
    }

    /// Brings the entity with the uid back to life, if a session stands
    /// behind it.
    pub fn respawn(&mut self, events: &mut Vec<Event>, uid: u64)
        ensures
            (final(self)@, events_view(final(events)@)) == respawned(
                old(self)@,
                events_view(old(events)@),
                uid,
            ),
            old(self)@.wf() ==> final(self)@.wf(),
            final(self)@.world == old(self)@.world,
    {
        match self.clients.index_of(uid) {
            Some(i) => {
                match self.state.find_entity(uid) {
                    Some(j) => {
                        match &mut self.state.entities[j].stats {
                            Some(stats) => {
                                stats.revive();
                            },
                            None => {},
                        }
                        let entity = &mut self.state.entities[j];
                        match entity.pos {
                            Some(pos) => {
                                let z = if pos.2 > i32::MAX - RESPAWN_LIFT {
                                    i32::MAX
                                } else {
                                    pos.2 + RESPAWN_LIFT
                                };
                                entity.pos = Some((pos.0, pos.1, z));
                                entity.pos_changed = true;
                            },
                            None => {},
                        }
                        entity.force_update = true;
                        proof {
                            lemma_entity_update(
                                old(self).state.entities@,
                                self.state.entities@,
                                j as int,
                            );
                        }
                    },
                    None => {},
                }
                self.client_allow(i, ClientState::Character);
                push_event(events, Event::Respawned { entity: uid });
            },
            None => {},
        }
    }

    /// Brings the entities with the uids back to life, in order.
    fn respawn_all(&mut self, events: &mut Vec<Event>, uids: &Vec<u64>)
        ensures
            (final(self)@, events_view(final(events)@)) == respawned_upto(
                old(self)@,
                events_view(old(events)@),
                uids@,
                uids@.len() as int,
            ),
            old(self)@.wf() ==> final(self)@.wf(),
            final(self)@.world == old(self)@.world,
    {
        let mut k: usize = 0;
        while k < uids.len()
            invariant
                old(self)@.wf() ==> self@.wf(),
                self@.world == old(self)@.world,
                k <= uids.len(),
                (self@, events_view(events@)) == respawned_upto(
                    old(self)@,
                    events_view(old(events)@),
                    uids@,
                    k as int,
                ),
            decreases uids.len() - k,
        {
            self.respawn(events, uids[k]);
            k = k + 1;
        }
    }

    /// Tells the owners of the entities whose inventory changed.
    fn tell_inventories(&mut self)
        ensures
            final(self)@ == (ServerView {
                clients: inventories_told(old(self)@, old(self)@.state.entities.len() as int),
                ..old(self)@
            }),
            old(self)@.wf() ==> final(self)@.wf(),
            final(self)@.world == old(self)@.world,
    {
        let n = self.state.entities.len();
        let mut j: usize = 0;
        while j < n
            invariant
                old(self)@.wf() ==> self@.wf(),
                self@.world == old(self)@.world,
                j <= n,
                n == self.state.entities.len(),
                self.state == old(self).state,
                self@ == (ServerView { clients: inventories_told(old(self)@, j as int), ..old(self)@ }),
            decreases n - j,
        {
            if self.state.entities[j].has_inventory && self.state.entities[j].inventory_update {
                let uid = self.state.entities[j].uid;
                self.clients.notify(uid, ServerMsg::InventoryUpdate);
            }
            j = j + 1;
        }
    }

    /// Takes the marks of one tick off the entities.
    fn clear_marks(&mut self)
        ensures
            final(self)@ == (ServerView {
                state: StateView {
                    entities: unmarked(old(self)@.state.entities),
                    ..old(self)@.state
                },
                ..old(self)@
            }),
            old(self)@.wf() ==> final(self)@.wf(),
            final(self)@.world == old(self)@.world,
    {
        let n = self.state.entities.len();
        let mut j: usize = 0;
        while j < n
            invariant
                j <= n,
                n == self.state.entities.len(),
                n == old(self).state.entities.len(),
                forall|k: int|
                    0 <= k < j ==> (#[trigger] self.state.entities[k])@ == unmarked(
                        old(self)@.state.entities,
                    )[k],
                forall|k: int|
                    j <= k < n ==> #[trigger] self.state.entities[k] == old(self).state.entities[k],
                self.state.next_uid == old(self).state.next_uid,
                self.state.terrain == old(self).state.terrain,
                self.state.block_change == old(self).state.block_change,
                self.state.terrain_changes == old(self).state.terrain_changes,
                self.state.dirtied_chunks == old(self).state.dirtied_chunks,
                self.state.time == old(self).state.time,
                self.state.time_of_day == old(self).state.time_of_day,
                self.state.delta_time == old(self).state.delta_time,
                self.world_provider == old(self).world_provider,
                self.clients == old(self).clients,
                self.pending_chunks == old(self).pending_chunks,
                self.server_settings == old(self).server_settings,
                self.server_info == old(self).server_info,
                self.accounts == old(self).accounts,
                self.spawn_point == old(self).spawn_point,
                self.closed == old(self).closed,
            decreases n - j,
        {
            let entity = &mut self.state.entities[j];
            entity.force_update = false;
            entity.inventory_update = false;
            j = j + 1;
        }
        assert(self@.state.entities =~= unmarked(old(self)@.state.entities));
    }

    /// Brings the clients up to date with the state of the world.
    pub fn sync_clients(&mut self, events: &mut Vec<Event>)
        ensures
            (final(self)@, events_view(final(events)@)) == clients_synced(
                old(self)@,
                events_view(old(events)@),
            ),
            old(self)@.wf() ==> final(self)@.wf(),
            final(self)@.world == old(self)@.world,
    {
        self.clients.notify_registered(ServerMsg::EcsSync);
        self.tell_deaths();
        let dying = self.uids_dying();
        self.kill_all(events, &dying);
        let respawning = self.uids_respawning();
        self.respawn_all(events, &respawning);
        self.sync_physics();
        self.tell_inventories();
        self.clear_marks();
    }
}

} // verus!
