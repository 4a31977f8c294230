//! Startup configuration of the simulation core, with its validation.
//!
//! A configuration is checked once at startup; the system refuses to run on
//! a flawed one rather than produce undefined timing behaviour.

use vstd::prelude::*;

use crate::geom::COORD_LIMIT;

verus! {

/// Why a configuration was refused at startup.
#[derive(Clone, Copy, PartialEq, Eq, Structural, Debug)]
pub enum ConfigError {
    WorldSizeOutOfRange,
    RebuildIntervalZero,
    EnemyCapacityZero,
    SpawnIntervalZero,
    RadiusOutOfRange,
    HealthZero,
    ExclusionRadiusOutOfRange,
}

/// Fixed startup configuration; not runtime-mutable. Lengths are fixed-point
/// world units, times are milliseconds.
#[derive(Clone, Copy, PartialEq, Eq, Structural, Debug)]
pub struct Config {
    /// Half the world's width: positions keep `-world_half_w <= x <= world_half_w`.
    pub world_half_w: i64,
    /// Half the world's height, bounding `y` the same way.
    pub world_half_h: i64,
    /// How long a spatial index snapshot is served before it is rebuilt.
    pub rebuild_interval_ms: u64,
    /// Capacity: the most enemies simultaneously alive.
    pub enemy_capacity: usize,
    /// One enemy admission per this many milliseconds: the inverse spawn rate.
    pub spawn_interval_ms: u64,
    pub player_radius: i64,
    pub enemy_radius: i64,
    pub projectile_radius: i64,
    pub player_max_health: u32,
    /// Health a newly admitted enemy starts with.
    pub enemy_max_health: u32,
    /// Damage an overlapping enemy deals the player on each tick of contact.
    pub enemy_contact_damage: u32,
    /// Minimum distance from the player at which a new enemy may appear.
    pub spawn_exclusion_radius: i64,
}

impl Config {
    pub open spec fn valid(self) -> bool {
        &&& 0 < self.world_half_w <= COORD_LIMIT
        &&& 0 < self.world_half_h <= COORD_LIMIT
        &&& self.rebuild_interval_ms > 0
        &&& self.enemy_capacity > 0
        &&& self.spawn_interval_ms > 0
        &&& 0 < self.player_radius <= COORD_LIMIT
        &&& 0 < self.enemy_radius <= COORD_LIMIT
        &&& 0 < self.projectile_radius <= COORD_LIMIT
        &&& self.player_max_health > 0
        &&& self.enemy_max_health > 0
        &&& 0 <= self.spawn_exclusion_radius <= COORD_LIMIT
    }

    /// The first reason this configuration is refused, if any; `check`
    /// reports exactly this.
    pub open spec fn flaw(self) -> Option<ConfigError> {
        if !(0 < self.world_half_w <= COORD_LIMIT && 0 < self.world_half_h <= COORD_LIMIT) {
            Some(ConfigError::WorldSizeOutOfRange)
        } else if self.rebuild_interval_ms == 0 {
            Some(ConfigError::RebuildIntervalZero)
        } else if self.enemy_capacity == 0 {
            Some(ConfigError::EnemyCapacityZero)
        } else if self.spawn_interval_ms == 0 {
            Some(ConfigError::SpawnIntervalZero)
        } else if !(0 < self.player_radius <= COORD_LIMIT && 0 < self.enemy_radius <= COORD_LIMIT
            && 0 < self.projectile_radius <= COORD_LIMIT) {
            Some(ConfigError::RadiusOutOfRange)
        } else if self.player_max_health == 0 || self.enemy_max_health == 0 {
            Some(ConfigError::HealthZero)
        } else if !(0 <= self.spawn_exclusion_radius <= COORD_LIMIT) {
            Some(ConfigError::ExclusionRadiusOutOfRange)
        } else {
            None
        }
    }

    /// Whether `(x, y)` lies within the bounded world.
    pub open spec fn pos_in_world(self, x: int, y: int) -> bool {
        &&& -self.world_half_w <= x <= self.world_half_w
        &&& -self.world_half_h <= y <= self.world_half_h
    }

    /// Startup validation: succeeds exactly on a valid configuration and
    /// otherwise names the first flaw found.
    pub fn check(&self) -> (r: Result<(), ConfigError>)
        ensures
            r is Ok <==> self.valid(),
            match r {
                Ok(()) => self.flaw() is None,
                Err(e) => self.flaw() == Some(e),
            },
    {
        if !(0 < self.world_half_w && self.world_half_w <= COORD_LIMIT && 0 < self.world_half_h
            && self.world_half_h <= COORD_LIMIT) {
            Err(ConfigError::WorldSizeOutOfRange)
        } else if self.rebuild_interval_ms == 0 {
            Err(ConfigError::RebuildIntervalZero)
        } else if self.enemy_capacity == 0 {
            Err(ConfigError::EnemyCapacityZero)
        } else if self.spawn_interval_ms == 0 {
            Err(ConfigError::SpawnIntervalZero)
        } else if !(0 < self.player_radius && self.player_radius <= COORD_LIMIT && 0
            < self.enemy_radius && self.enemy_radius <= COORD_LIMIT && 0 < self.projectile_radius
            && self.projectile_radius <= COORD_LIMIT) {
            Err(ConfigError::RadiusOutOfRange)
        } else if self.player_max_health == 0 || self.enemy_max_health == 0 {
            Err(ConfigError::HealthZero)
        } else if !(0 <= self.spawn_exclusion_radius && self.spawn_exclusion_radius
            <= COORD_LIMIT) {
            Err(ConfigError::ExclusionRadiusOutOfRange)
        } else {
            Ok(())
        }
    }
}

} // verus!
