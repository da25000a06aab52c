//! What the server core keeps of each entity.

use crate::collections::BlockPos;
use crate::stats::{Dying, Energy, Exp, Health, Level, Stats};
use vstd::prelude::*;

verus! {

/// The longest alias that a player may take, in characters.
pub const MAX_ALIAS_LEN: usize = 32;

/// The player behind a connection.
#[derive(Clone, Debug, PartialEq, Eq)]
pub struct Player {
    pub alias: String,
    /// Set once the player has entered the world.
    pub view_distance: Option<u32>,
}

/// A [`Player`] as a mathematical value.
pub struct PlayerView {
    pub alias: Seq<char>,
    pub view_distance: Option<u32>,
}

impl View for Player {
    type V = PlayerView;

    open spec fn view(&self) -> PlayerView {
        PlayerView { alias: self.alias@, view_distance: self.view_distance }
    }
}

/// Whether an alias is short enough.
pub open spec fn alias_is_valid(alias: Seq<char>) -> bool {
    alias.len() <= MAX_ALIAS_LEN
}

impl Player {
    pub fn new(alias: String, view_distance: Option<u32>) -> (player: Player)
        ensures
            player.alias == alias,
            player.view_distance == view_distance,
    {
        Player { alias, view_distance }
    }

    /// Whether the alias is at most [`MAX_ALIAS_LEN`] characters long.
    pub fn is_valid(&self) -> (r: bool)
        ensures
            r == alias_is_valid(self.alias@),
    {
        self.alias.as_str().unicode_len() <= MAX_ALIAS_LEN
    }
}

/// The kind of body of an entity.
#[derive(Clone, Copy, Debug, PartialEq, Eq, Structural)]
pub enum Body {
    Humanoid,
    Quadruped,
    QuadrupedMedium,
    Object,
}

/// A physical value of an entity that clients are told of: whether the
/// entity has one, and whether it changed since clients were last told.
#[derive(Clone, Copy, Debug, PartialEq, Eq, Structural)]
pub struct Synced {
    pub present: bool,
    pub changed: bool,
}

/// One entity, with what the server core reads of it.
#[derive(Debug, PartialEq, Eq)]
pub struct Entity {
    pub uid: u64,
    pub player: Option<Player>,
    /// The block that the entity stands in.
    pub pos: Option<BlockPos>,
    /// Whether the position changed since clients were last told.
    pub pos_changed: bool,
    pub vel: Synced,
    pub ori: Synced,
    pub action_state: Synced,
    pub stats: Option<Stats>,
    pub body: Option<Body>,
    pub has_inventory: bool,
    pub can_build: bool,
    pub admin: bool,
    /// Set on entities that the server steers.
    pub agent: bool,
    /// Set when the owning client must take the server's physics values.
    pub force_update: bool,
    pub inventory_update: bool,
    pub dying: Option<Dying>,
    pub respawning: bool,
}

/// [`Stats`] as a mathematical value.
pub struct StatsView {
    pub name: Seq<char>,
    pub health: Health,
    pub energy: Energy,
    pub level: Level,
    pub exp: Exp,
    pub is_dead: bool,
}

/// The view of statistics.
pub open spec fn stats_view(stats: Stats) -> StatsView {
    StatsView {
        name: stats.name@,
        health: stats.health,
        energy: stats.energy,
        level: stats.level,
        exp: stats.exp,
        is_dead: stats.is_dead,
    }
}

/// An [`Entity`] as a mathematical value.
pub struct EntityView {
    pub uid: u64,
    pub player: Option<PlayerView>,
    pub pos: Option<BlockPos>,
    pub pos_changed: bool,
    pub vel: Synced,
    pub ori: Synced,
    pub action_state: Synced,
    pub stats: Option<StatsView>,
    pub body: Option<Body>,
    pub has_inventory: bool,
    pub can_build: bool,
    pub admin: bool,
    pub agent: bool,
    pub force_update: bool,
    pub inventory_update: bool,
    pub dying: Option<Dying>,
    pub respawning: bool,
}

impl View for Entity {
    type V = EntityView;

    open spec fn view(&self) -> EntityView {
        EntityView {
            uid: self.uid,
            player: match self.player {
                Some(p) => Some(p@),
                None => None,
            },
            pos: self.pos,
            pos_changed: self.pos_changed,
            vel: self.vel,
            ori: self.ori,
            action_state: self.action_state,
            stats: match self.stats {
                Some(s) => Some(stats_view(s)),
                None => None,
            },
            body: self.body,
            has_inventory: self.has_inventory,
            can_build: self.can_build,
            admin: self.admin,
            agent: self.agent,
            force_update: self.force_update,
            inventory_update: self.inventory_update,
            dying: self.dying,
            respawning: self.respawning,
        }
    }
}

impl EntityView {
    /// An entity with the given uid and nothing else.
    pub open spec fn bare(uid: u64) -> EntityView {
        EntityView {
            uid,
            player: None,
            pos: None,
            pos_changed: false,
            vel: Synced { present: false, changed: false },
            ori: Synced { present: false, changed: false },
            action_state: Synced { present: false, changed: false },
            stats: None,
            body: None,
            has_inventory: false,
            can_build: false,
            admin: false,
            agent: false,
            force_update: false,
            inventory_update: false,
            dying: None,
            respawning: false,
        }
    }
}

impl Entity {
    /// An entity with the given uid and nothing else.
    pub fn new(uid: u64) -> (entity: Entity)
        ensures
            entity@ == EntityView::bare(uid),
    {
        Entity {
            uid,
            player: None,
            pos: None,
            pos_changed: false,
            vel: Synced { present: false, changed: false },
            ori: Synced { present: false, changed: false },
            action_state: Synced { present: false, changed: false },
            stats: None,
            body: None,
            has_inventory: false,
            can_build: false,
            admin: false,
            agent: false,
            force_update: false,
            inventory_update: false,
            dying: None,
            respawning: false,
        }
    }
}

/// The entities of a store as mathematical values.
pub open spec fn entities_view(entities: Seq<Entity>) -> Seq<EntityView> {
    entities.map_values(|e: Entity| e@)
}

} // verus!
