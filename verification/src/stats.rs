//! Health, energy, experience and level of an entity.

use vstd::prelude::*;

verus! {

/// What caused a change of health.
#[derive(Clone, Copy, Debug, PartialEq, Eq, Structural)]
pub enum HealthSource {
    /// An attack by the entity with the given uid.
    Attack { by: u64 },
    Suicide,
    World,
    Revive,
    Command,
    LevelUp,
    Unknown,
}

/// What caused a change of energy.
#[derive(Clone, Copy, Debug, PartialEq, Eq, Structural)]
pub enum EnergySource {
    CastSpell,
    LevelUp,
    Unknown,
}

/// Health points.
#[derive(Clone, Copy, Debug, PartialEq, Eq)]
pub struct Health {
    pub current: u32,
    pub maximum: u32,
    /// The last change: its amount and its cause.
    pub last_change: Option<(i32, HealthSource)>,
}

/// Energy points.
#[derive(Clone, Copy, Debug, PartialEq, Eq)]
pub struct Energy {
    pub current: u32,
    pub maximum: u32,
    /// The last change: its amount and its cause.
    pub last_change: Option<(i32, EnergySource)>,
}

/// Experience towards the next level.
#[derive(Clone, Copy, Debug, PartialEq, Eq, Structural)]
pub struct Exp {
    pub current: u32,
    pub maximum: u32,
}

/// The level of an entity.
#[derive(Clone, Copy, Debug, PartialEq, Eq, Structural)]
pub struct Level {
    pub amount: u32,
}

/// `lo` if `x` is below it, `hi` if `x` is above it, else `x`.
pub open spec fn clamp(x: int, lo: int, hi: int) -> int {
    if x < lo {
        lo
    } else if x > hi {
        hi
    } else {
        x
    }
}

/// The residue of `x` modulo 2^32, in `0 .. 2^32`.
pub open spec fn wrap_u32(x: int) -> int {
    x % 0x1_0000_0000
}

/// The low 32 bits of a sum of a `u32` and an `i64` that fits an `i64`.
fn low_bits(base: u32, delta: i64) -> (r: u32)
    requires
        i64::MIN <= base + delta <= i64::MAX,
    ensures
        r == wrap_u32(base + delta),
{
    let sum: i64 = base as i64 + delta;
    let r: u32 = #[verifier::truncate]
    (sum as u32);
    assert(r == (sum as int) % 0x1_0000_0000) by (bit_vector)
        requires
            r == sum as u32,
    ;
    r
}

impl Health {
    /// Health with the given points and no recorded change.
    pub fn new(current: u32, maximum: u32) -> (h: Health)
        ensures
            h.current == current,
            h.maximum == maximum,
            h.last_change.is_none(),
    {
        Health { current, maximum, last_change: None }
    }

    pub fn current(&self) -> (r: u32)
        ensures
            r == self.current,
    {
        self.current
    }

    pub fn maximum(&self) -> (r: u32)
        ensures
            r == self.maximum,
    {
        self.maximum
    }

    /// Sets the points to `amount`, capped at the maximum, and records the
    /// difference to the points before, cut to 32 bits.
    pub fn set_to(&mut self, amount: u32, cause: HealthSource)
        ensures
            final(self).maximum == old(self).maximum,
            final(self).current == clamp(amount as int, 0, old(self).maximum as int),
            final(self).last_change == Some(
                ((final(self).current - old(self).current) as i32, cause),
            ),
    {
        let amount = if amount < self.maximum {
            amount
        } else {
            self.maximum
        };
        let change: i32 = #[verifier::truncate]
        ((amount as i64 - self.current as i64) as i32);
        self.last_change = Some((change, cause));
        self.current = amount;
    }

    /// Adds `amount` to the points, keeping them between zero and the maximum,
    /// and records the amount asked for.
    pub fn change_by(&mut self, amount: i32, cause: HealthSource)
        ensures
            final(self).maximum == old(self).maximum,
            final(self).current == clamp(
                old(self).current + amount,
                0,
                old(self).maximum as int,
            ),
            final(self).last_change == Some((amount, cause)),
    {
        let sum: i64 = self.current as i64 + amount as i64;
        self.current = if sum < 0 {
            0
        } else if sum > self.maximum as i64 {
            self.maximum
        } else {
            sum as u32
        };
        self.last_change = Some((amount, cause));
    }

    /// Sets the maximum, and lowers the points to it where they are above.
    pub fn set_maximum(&mut self, amount: u32)
        ensures
            final(self).maximum == amount,
            final(self).current == clamp(old(self).current as int, 0, amount as int),
            final(self).last_change == old(self).last_change,
    {
        self.maximum = amount;
        if self.current > self.maximum {
            self.current = self.maximum;
        }
    }
}

impl Energy {
    /// Energy with the given points and no recorded change.
    pub fn new(current: u32, maximum: u32) -> (e: Energy)
        ensures
            e.current == current,
            e.maximum == maximum,
            e.last_change.is_none(),
    {
        Energy { current, maximum, last_change: None }
    }

    pub fn current(&self) -> (r: u32)
        ensures
            r == self.current,
    {
        self.current
    }

    pub fn maximum(&self) -> (r: u32)
        ensures
            r == self.maximum,
    {
        self.maximum
    }

    /// Sets the points to `amount`, capped at the maximum, and records the
    /// difference to the points before, cut to 32 bits.
    pub fn set_to(&mut self, amount: u32, cause: EnergySource)
        ensures
            final(self).maximum == old(self).maximum,
            final(self).current == clamp(amount as int, 0, old(self).maximum as int),
            final(self).last_change == Some(
                ((final(self).current - old(self).current) as i32, cause),
            ),
    {
        let amount = if amount < self.maximum {
            amount
        } else {
            self.maximum
        };
        let change: i32 = #[verifier::truncate]
        ((amount as i64 - self.current as i64) as i32);
        self.last_change = Some((change, cause));
        self.current = amount;
    }

    /// Adds `amount` to the points, keeping them between zero and the maximum,
    /// and records the amount asked for.
    pub fn change_by(&mut self, amount: i32, cause: EnergySource)
        ensures
            final(self).maximum == old(self).maximum,
            final(self).current == clamp(
                old(self).current + amount,
                0,
                old(self).maximum as int,
            ),
            final(self).last_change == Some((amount, cause)),
    {
        let sum: i64 = self.current as i64 + amount as i64;
        self.current = if sum < 0 {
            0
        } else if sum > self.maximum as i64 {
            self.maximum
        } else {
            sum as u32
        };
        self.last_change = Some((amount, cause));
    }

    /// Sets the maximum, and lowers the points to it where they are above.
    pub fn set_maximum(&mut self, amount: u32)
        ensures
            final(self).maximum == amount,
            final(self).current == clamp(old(self).current as int, 0, amount as int),
            final(self).last_change == old(self).last_change,
    {
        self.maximum = amount;
        if self.current > self.maximum {
            self.current = self.maximum;
        }
    }
}

impl Exp {
    /// Experience with the given points and threshold.
    pub fn new(current: u32, maximum: u32) -> (e: Exp)
        ensures
            e.current == current,
            e.maximum == maximum,
    {
        Exp { current, maximum }
    }

    pub fn current(&self) -> (r: u32)
        ensures
            r == self.current,
    {
        self.current
    }

    pub fn maximum(&self) -> (r: u32)
        ensures
            r == self.maximum,
    {
        self.maximum
    }

    pub fn set_current(&mut self, current: u32)
        ensures
            final(self).current == current,
            final(self).maximum == old(self).maximum,
    {
        self.current = current;
    }

    /// Adds `current` to the points and keeps the low 32 bits of the sum.
    pub fn change_by(&mut self, current: i64)
        requires
            i64::MIN <= old(self).current + current <= i64::MAX,
        ensures
            final(self).current == wrap_u32(old(self).current + current),
            final(self).maximum == old(self).maximum,
    {
        self.current = low_bits(self.current, current);
    }

    /// Adds `maximum` to the threshold and keeps the low 32 bits of the sum.
    pub fn change_maximum_by(&mut self, maximum: i64)
        requires
            i64::MIN <= old(self).maximum + maximum <= i64::MAX,
        ensures
            final(self).maximum == wrap_u32(old(self).maximum + maximum),
            final(self).current == old(self).current,
    {
        self.maximum = low_bits(self.maximum, maximum);
    }
}

impl Level {
    /// The given level.
    pub fn new(amount: u32) -> (l: Level)
        ensures
            l.amount == amount,
    {
        Level { amount }
    }

    pub fn level(&self) -> (r: u32)
        ensures
            r == self.amount,
    {
        self.amount
    }

    pub fn change_by(&mut self, level: u32)
        requires
            old(self).amount + level <= u32::MAX,
        ensures
            final(self).amount == old(self).amount + level,
    {
        self.amount = self.amount + level;
    }
}

/// The statistics of a living thing.
#[derive(Clone, Debug, PartialEq, Eq)]
pub struct Stats {
    pub name: String,
    pub health: Health,
    pub energy: Energy,
    pub level: Level,
    pub exp: Exp,
    pub is_dead: bool,
}

impl Stats {
    /// Whether the health points are used up.
    pub fn should_die(&self) -> (r: bool)
        ensures
            r == (self.health.current == 0),
    {
        self.health.current == 0
    }

    /// Restores full health and clears the death mark.
    pub fn revive(&mut self)
        ensures
            final(self).health.current == old(self).health.maximum,
            final(self).health.maximum == old(self).health.maximum,
            final(self).health.last_change == Some(
                ((old(self).health.maximum - old(self).health.current) as i32, HealthSource::Revive),
            ),
            !final(self).is_dead,
            final(self).name == old(self).name,
            final(self).energy == old(self).energy,
            final(self).level == old(self).level,
            final(self).exp == old(self).exp,
    {
        let maximum = self.health.maximum;
        self.health.set_to(maximum, HealthSource::Revive);
        self.is_dead = false;
    }

    /// Fresh statistics: 100 health, 200 energy, level 1, 50 points to the
    /// next level.
    pub fn new(name: String) -> (s: Stats)
        ensures
            s.name == name,
            s.health.current == 100,
            s.health.maximum == 100,
            s.health.last_change.is_none(),
            s.energy.current == 200,
            s.energy.maximum == 200,
            s.energy.last_change.is_none(),
            s.level.amount == 1,
            s.exp.current == 0,
            s.exp.maximum == 50,
            !s.is_dead,
    {
        Stats {
            name,
            health: Health::new(100, 100),
            level: Level::new(1),
            exp: Exp::new(0, 50),
            energy: Energy::new(200, 200),
            is_dead: false,
        }
    }

    /// The same statistics with health and its maximum set to `amount`.
    pub fn with_max_health(self, amount: u32) -> (s: Stats)
        ensures
            s.health.current == amount,
            s.health.maximum == amount,
            s.health.last_change == self.health.last_change,
            s.name == self.name,
            s.energy == self.energy,
            s.level == self.level,
            s.exp == self.exp,
            s.is_dead == self.is_dead,
    {
        let mut s = self;
        s.health.maximum = amount;
        s.health.current = amount;
        s
    }

    /// The same statistics with energy and its maximum set to `amount`.
    pub fn with_max_energy(self, amount: u32) -> (s: Stats)
        ensures
            s.energy.current == amount,
            s.energy.maximum == amount,
            s.energy.last_change == self.energy.last_change,
            s.name == self.name,
            s.health == self.health,
            s.level == self.level,
            s.exp == self.exp,
            s.is_dead == self.is_dead,
    {
        let mut s = self;
        s.energy.maximum = amount;
        s.energy.current = amount;
        s
    }
}

/// Marks an entity that is about to die, with the cause.
#[derive(Clone, Copy, Debug, PartialEq, Eq, Structural)]
pub struct Dying {
    pub cause: HealthSource,
}

} // verus!
