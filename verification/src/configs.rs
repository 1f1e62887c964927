//! Gameplay configuration. Distances and speeds are fixed-point milli-units
//! (1000 per world unit); health and damage are milli-points.

use vstd::prelude::*;
use crate::geometry::{POS_LIMIT, SPEED_LIMIT};

verus! {

/// Numerator and denominator of the diagonal movement factor 1/sqrt(2).
pub const DIAG_NUM: i64 = 707;

pub const DIAG_DEN: i64 = 1_000;

/// The camera moves a tenth of the way to its target each tick.
pub const CAMERA_BLEND_DIV: i64 = 10;

/// Health and damage values stay within this bound.
pub const HEALTH_LIMIT: i64 = 1_000_000_000;

/// At most this many collision events are buffered in one tick.
pub const EVENTS_LIMIT: usize = 1_000_000;

/// All tunable gameplay numbers, handed explicitly to each system.
#[derive(Clone, Copy, PartialEq, Eq, Structural, Debug)]
pub struct GameConfig {
    /// Player step per tick.
    pub player_speed: i64,
    /// Player health at spawn.
    pub player_health: i64,
    /// Enemy seek step per tick.
    pub enemy_speed: i64,
    /// Enemy health at spawn.
    pub enemy_health: i64,
    /// Health lost by the player per enemy contact.
    pub enemy_damage: i64,
    /// Cap on the enemy population.
    pub max_num_enemies: usize,
    /// Enemies spawned per spawn interval at most.
    pub spawn_rate_per_interval: usize,
    /// Enemies appear no closer to the origin than this.
    pub spawn_min_radius: i64,
    /// Enemies appear strictly closer to the origin than this.
    pub spawn_max_radius: i64,
    /// Target count of decorations visible around the camera.
    pub num_world_decorations: usize,
    /// Target count of trees visible around the camera.
    pub num_world_trees: usize,
    /// Half-extents of the world and of the camera window.
    pub world_w: i64,
    pub world_h: i64,
}

impl GameConfig {
    /// The bounds every system relies on: speeds and radii positive and
    /// small enough that no fixed-point computation can overflow.
    pub open spec fn wf(self) -> bool {
        &&& 2 <= self.player_speed <= SPEED_LIMIT
        &&& 2 <= self.enemy_speed <= SPEED_LIMIT
        &&& 0 < self.player_health <= HEALTH_LIMIT
        &&& 0 < self.enemy_health <= HEALTH_LIMIT
        &&& 0 <= self.enemy_damage <= HEALTH_LIMIT
        &&& self.max_num_enemies <= 1_000_000
        &&& self.spawn_rate_per_interval <= 1_000_000
        &&& 0 < self.spawn_min_radius < self.spawn_max_radius <= POS_LIMIT / 2
        &&& 0 < self.world_w <= POS_LIMIT / 2
        &&& 0 < self.world_h <= POS_LIMIT / 2
        &&& self.num_world_decorations <= 1_000_000
        &&& self.num_world_trees <= 1_000_000
    }

    /// The shipped configuration.
    pub open spec fn standard_spec() -> GameConfig {
        GameConfig {
            player_speed: 2_000,
            player_health: 100_000,
            enemy_speed: 1_000,
            enemy_health: 500_000,
            enemy_damage: 0,
            max_num_enemies: 1000,
            spawn_rate_per_interval: 500,
            spawn_min_radius: 1_000_000,
            spawn_max_radius: 5_000_000,
            num_world_decorations: 50,
            num_world_trees: 20,
            world_w: 3_000_000,
            world_h: 2_500_000,
        }
    }

    pub fn standard() -> (c: GameConfig)
        ensures
            c == GameConfig::standard_spec(),
            c.wf(),
    {
        GameConfig {
            player_speed: 2_000,
            player_health: 100_000,
            enemy_speed: 1_000,
            enemy_health: 500_000,
            enemy_damage: 0,
            max_num_enemies: 1000,
            spawn_rate_per_interval: 500,
            spawn_min_radius: 1_000_000,
            spawn_max_radius: 5_000_000,
            num_world_decorations: 50,
            num_world_trees: 20,
            world_w: 3_000_000,
            world_h: 2_500_000,
        }
    }
}

} // verus!
