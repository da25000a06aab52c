//! Creatures that come with a generated chunk.

use crate::collections::BlockPos;
use crate::comp::{Body, Entity, EntityView, StatsView, Synced};
use crate::event::{events_view, push_event, Event, EventView};
use crate::server::{Server, ServerView};
use crate::state::StateView;
use crate::stats::{Energy, Exp, Health, Level, Stats};
use crate::world::NpcInfo;
use vstd::prelude::*;

verus! {

/// The least health of a boss.
pub const BOSS_HEALTH_BASE: u32 = 500;

/// The span above the least health within which the health of a boss lies.
pub const BOSS_HEALTH_SPAN: u32 = 400;

/// What chance decides of one creature.
#[derive(Clone, Copy, Debug, PartialEq, Eq, Structural)]
pub struct NpcRolls {
    /// Whether the creature is a humanoid, and not a wolf.
    pub humanoid: bool,
    /// For a boss: whether it is a humanoid whatever `humanoid` says.
    pub boss_humanoid: bool,
    /// For a boss: the number that its health is taken from.
    pub health: u32,
}

/// `rand::random` for a `bool`: either value may come back.
#[verifier::external_body]
fn random_bool() -> bool {
    rand::random::<bool>()
}

/// `rand::random` for a `u32`: any value may come back.
#[verifier::external_body]
fn random_u32() -> u32 {
    rand::random::<u32>()
}

/// `rand::random_ratio`: a `bool` that is true with the chance
/// `numerator / denominator`. Either value may come back. The call is kept
/// to the numbers for which `rand` does not panic.
#[verifier::external_body]
fn random_ratio(numerator: u32, denominator: u32) -> (r: bool)
    requires
        denominator > 0,
        numerator <= denominator,
{
    rand::random_ratio(numerator, denominator)
}

/// Draws what chance decides of one creature. A boss is a humanoid in four
/// cases of five whatever was drawn first.
fn draw_rolls(boss: bool) -> (rolls: NpcRolls)
    ensures
        !boss ==> !rolls.boss_humanoid && rolls.health == 0,
{
    let humanoid = random_bool();
    if boss {
        let boss_humanoid = random_ratio(4, 5);
        let health = random_u32();
        NpcRolls { humanoid, boss_humanoid, health }
    } else {
        NpcRolls { humanoid, boss_humanoid: false, health: 0 }
    }
}

/// Whether a creature is a humanoid.
pub open spec fn npc_is_humanoid(boss: bool, rolls: NpcRolls) -> bool {
    rolls.humanoid || (boss && rolls.boss_humanoid)
}

/// The health of a creature: 100, or for a boss from 500 up to 899.
pub open spec fn npc_health(boss: bool, rolls: NpcRolls) -> u32 {
    if boss {
        (BOSS_HEALTH_BASE + rolls.health % BOSS_HEALTH_SPAN) as u32
    } else {
        100
    }
}

/// The entity of a creature that was spawned.
pub open spec fn npc_entity(uid: u64, npc: NpcInfo, rolls: NpcRolls) -> EntityView {
    let humanoid = npc_is_humanoid(npc.boss, rolls);
    EntityView {
        pos: Some(npc.pos),
        pos_changed: true,
        vel: Synced { present: true, changed: true },
        ori: Synced { present: true, changed: true },
        action_state: Synced { present: true, changed: true },
        stats: Some(
            StatsView {
                name: if humanoid {
                    "Humanoid"@
                } else {
                    "Wolf"@
                },
                health: Health {
                    current: npc_health(npc.boss, rolls),
                    maximum: npc_health(npc.boss, rolls),
                    last_change: None,
                },
                energy: Energy { current: 200, maximum: 200, last_change: None },
                level: Level { amount: 1 },
                exp: Exp { current: 0, maximum: 50 },
                is_dead: false,
            },
        ),
        body: Some(
            if humanoid {
                Body::Humanoid
            } else {
                Body::QuadrupedMedium
            },
        ),
        agent: true,
        ..EntityView::bare(uid)
    }
}

/// The server and the events after a creature was spawned.
pub open spec fn npc_spawned(
    server: ServerView,
    events: Seq<EventView>,
    npc: NpcInfo,
    rolls: NpcRolls,
) -> (ServerView, Seq<EventView>) {
    let uid = server.state.next_uid;
    (
        ServerView {
            state: StateView {
                entities: server.state.entities.push(npc_entity(uid, npc, rolls)),
                next_uid: (uid + 1) as u64,
                ..server.state
            },
            ..server
        },
        events.push(EventView::NpcSpawned { entity: uid, boss: npc.boss }),
    )
}

/// The server and the events after the first `n` creatures of a list were
/// spawned.
pub open spec fn npcs_spawned(
    server: ServerView,
    events: Seq<EventView>,
    npcs: Seq<NpcInfo>,
    rolls: Seq<NpcRolls>,
    n: int,
) -> (ServerView, Seq<EventView>)
    decreases n,
{
    if n <= 0 {
        (server, events)
    } else {
        let (s, e) = npcs_spawned(server, events, npcs, rolls, n - 1);
        npc_spawned(s, e, npcs[n - 1], rolls[n - 1])
    }
}

/// Every creature takes one uid.
pub proof fn lemma_npcs_take_uids(
    server: ServerView,
    events: Seq<EventView>,
    npcs: Seq<NpcInfo>,
    rolls: Seq<NpcRolls>,
    n: int,
)
    requires
        0 <= n,
        server.state.next_uid + n <= u64::MAX,
    ensures
        npcs_spawned(server, events, npcs, rolls, n).0.state.next_uid == server.state.next_uid + n,
    decreases n,
{
    if n > 0 {
        lemma_npcs_take_uids(server, events, npcs, rolls, n - 1);
    }
}

/// The entity of a creature that the server was told to make.
pub open spec fn made_npc(uid: u64, pos: BlockPos, name: Seq<char>, body: Body) -> EntityView {
    EntityView {
        pos: Some(pos),
        pos_changed: true,
        vel: Synced { present: true, changed: true },
        ori: Synced { present: true, changed: true },
        action_state: Synced { present: true, changed: true },
        stats: Some(crate::messages::fresh_stats(name)),
        body: Some(body),
        force_update: true,
        ..EntityView::bare(uid)
    }
}

/// The entity of a thing that lies in the world.
pub open spec fn made_object(uid: u64, pos: BlockPos) -> EntityView {
    EntityView {
        pos: Some(pos),
        pos_changed: true,
        vel: Synced { present: true, changed: true },
        ori: Synced { present: true, changed: true },
        action_state: Synced { present: true, changed: true },
        body: Some(Body::Object),
        force_update: true,
        ..EntityView::bare(uid)
    }
}

/// The server with one more entity.
pub open spec fn with_made(server: ServerView, entity: EntityView) -> ServerView {
    ServerView {
        state: StateView {
            entities: server.state.entities.push(entity),
            next_uid: (server.state.next_uid + 1) as u64,
            ..server.state
        },
        ..server
    }
}

impl Server {
    /// Makes a creature with a name and a body, at rest at a position, and
    /// gives its uid.
    pub fn create_npc(&mut self, pos: BlockPos, name: String, body: Body) -> (uid: u64)
        requires
            old(self)@.state.next_uid < u64::MAX,
        ensures
            uid == old(self)@.state.next_uid,
            final(self)@ == with_made(old(self)@, made_npc(uid, pos, name@, body)),
            old(self)@.wf() ==> final(self)@.wf(),
            final(self)@.world == old(self)@.world,
    {
        let uid = self.state.next_uid;
        let mut entity = Entity::new(uid);
        entity.pos = Some(pos);
        entity.pos_changed = true;
        entity.vel = Synced { present: true, changed: true };
        entity.ori = Synced { present: true, changed: true };
        entity.action_state = Synced { present: true, changed: true };
        entity.stats = Some(Stats::new(name));
        entity.body = Some(body);
        entity.force_update = true;
        assert(entity@ == made_npc(uid, pos, name@, body));
        self.state.entities.push(entity);
        self.state.next_uid = uid + 1;
        assert(self@.state.entities =~= old(self)@.state.entities.push(
            made_npc(uid, pos, name@, body),
        ));
        uid
    }

    /// Makes a thing that lies in the world at a position, and gives its
    /// uid.
    pub fn create_object(&mut self, pos: BlockPos) -> (uid: u64)
        requires
            old(self)@.state.next_uid < u64::MAX,
        ensures
            uid == old(self)@.state.next_uid,
            final(self)@ == with_made(old(self)@, made_object(uid, pos)),
            old(self)@.wf() ==> final(self)@.wf(),
            final(self)@.world == old(self)@.world,
    {
        let uid = self.state.next_uid;
        let mut entity = Entity::new(uid);
        entity.pos = Some(pos);
        entity.pos_changed = true;
        entity.vel = Synced { present: true, changed: true };
        entity.ori = Synced { present: true, changed: true };
        entity.action_state = Synced { present: true, changed: true };
        entity.body = Some(Body::Object);
        entity.force_update = true;
        assert(entity@ == made_object(uid, pos));
        self.state.entities.push(entity);
        self.state.next_uid = uid + 1;
        assert(self@.state.entities =~= old(self)@.state.entities.push(made_object(uid, pos)));
        uid
    }

    /// Spawns a creature as chance has decided.
    pub fn spawn_npc(&mut self, events: &mut Vec<Event>, npc: &NpcInfo, rolls: NpcRolls)
        requires
            old(self)@.state.next_uid < u64::MAX,
        ensures
            (final(self)@, events_view(final(events)@)) == npc_spawned(
                old(self)@,
                events_view(old(events)@),
                *npc,
                rolls,
            ),
            old(self)@.wf() ==> final(self)@.wf(),
            final(self)@.world == old(self)@.world,
    {
        let humanoid = rolls.humanoid || (npc.boss && rolls.boss_humanoid);
        let name = if humanoid {
            String::from_str("Humanoid")
        } else {
            String::from_str("Wolf")
        };
        let body = if humanoid {
            Body::Humanoid
        } else {
            Body::QuadrupedMedium
        };
        let mut stats = Stats::new(name);
        if npc.boss {
            stats = stats.with_max_health(BOSS_HEALTH_BASE + rolls.health % BOSS_HEALTH_SPAN);
        }
        let uid = self.state.next_uid;
        let mut entity = Entity::new(uid);
        entity.pos = Some(npc.pos);
        entity.pos_changed = true;
        entity.vel = Synced { present: true, changed: true };
        entity.ori = Synced { present: true, changed: true };
        entity.action_state = Synced { present: true, changed: true };
        entity.stats = Some(stats);
        entity.body = Some(body);
        entity.agent = true;
        assert(entity@ == npc_entity(uid, *npc, rolls));
        self.state.entities.push(entity);
        self.state.next_uid = uid + 1;
        assert(self@.state.entities =~= old(self)@.state.entities.push(npc_entity(uid, *npc, rolls)));
        push_event(events, Event::NpcSpawned { entity: uid, boss: npc.boss });
    }

    /// Spawns the creatures of a list, each as chance decides, and gives
    /// what chance decided.
    pub(crate) fn spawn_npcs(&mut self, events: &mut Vec<Event>, npcs: &Vec<NpcInfo>) -> (rolls: Ghost<
        Seq<NpcRolls>,
    >)
        requires
            old(self)@.state.next_uid + npcs.len() <= u64::MAX,
        ensures
            rolls@.len() == npcs.len(),
            (final(self)@, events_view(final(events)@)) == npcs_spawned(
                old(self)@,
                events_view(old(events)@),
                npcs@,
                rolls@,
                npcs@.len() as int,
            ),
            old(self)@.wf() ==> final(self)@.wf(),
            final(self)@.world == old(self)@.world,
    {
        let ghost mut drawn: Seq<NpcRolls> = Seq::empty();
        let mut k: usize = 0;
        while k < npcs.len()
            invariant
                old(self)@.wf() ==> self@.wf(),
                self@.world == old(self)@.world,
                k <= npcs.len(),
                drawn.len() == k,
                old(self)@.state.next_uid + npcs.len() <= u64::MAX,
                (self@, events_view(events@)) == npcs_spawned(
                    old(self)@,
                    events_view(old(events)@),
                    npcs@,
                    drawn,
                    k as int,
                ),
            decreases npcs.len() - k,
        {
            proof {
                lemma_npcs_take_uids(old(self)@, events_view(old(events)@), npcs@, drawn, k as int);
            }
            let rolls = draw_rolls(npcs[k].boss);
            let ghost before = drawn;
            proof {
                drawn = drawn.push(rolls);
                lemma_npcs_prefix(
                    old(self)@,
                    events_view(old(events)@),
                    npcs@,
                    before,
                    drawn,
                    k as int,
                );
            }
            self.spawn_npc(events, &npcs[k], rolls);
            k = k + 1;
        }
        Ghost(drawn)
    }
}

/// What the first `n` creatures do depends on the first `n` draws alone.
pub proof fn lemma_npcs_prefix(
    server: ServerView,
    events: Seq<EventView>,
    npcs: Seq<NpcInfo>,
    rolls: Seq<NpcRolls>,
    more: Seq<NpcRolls>,
    n: int,
)
    requires
        0 <= n <= rolls.len() <= more.len(),
        forall|k: int| 0 <= k < n ==> rolls[k] == more[k],
    ensures
        npcs_spawned(server, events, npcs, rolls, n) == npcs_spawned(server, events, npcs, more, n),
    decreases n,
{
    if n > 0 {
        lemma_npcs_prefix(server, events, npcs, rolls, more, n - 1);
    }
}

} // verus!
