//! The fixed tuning values of the game, in the units of the simulation.

use vstd::prelude::*;

verus! {

/// Fixed-point resolution: one world unit is this many steps.
pub const UNIT: i32 = 1000;

// Sprites
pub const TILE_W: u32 = 16;
pub const TILE_H: u32 = 16;
pub const PLAYER_SPRITE_INDEX: usize = 0;
pub const BULLET_SPRITE_INDEX: usize = 16;
pub const GUN_SPRITE_INDEX: usize = 17;
pub const DECORATION_SPRITE_FIRST: usize = 24;
pub const DECORATION_SPRITE_COUNT: usize = 2;

// World
pub const NUM_WORLD_DECORATIONS: u32 = 1;
/// Decorations are scattered over `-WORLD_W .. WORLD_W` by `-WORLD_H .. WORLD_H`.
pub const WORLD_W: i32 = 250_000;
pub const WORLD_H: i32 = 250_000;

// Player
/// Length of the player's movement intent, in steps per tick.
pub const PLAYER_SPEED: u32 = 5_000;
pub const PLAYER_HEALTH: u32 = 100;

// Enemy
pub const MAX_NUM_ENEMIES: usize = 5;
pub const ENEMY_DAMAGE: u32 = 1;
/// Most enemies that one spawn wave may add.
pub const SPAWN_RATE_PER_SECOND: usize = 500;
pub const ENEMY_HEALTH: u32 = 100;
/// Nanoseconds from one spawn wave to the next.
pub const ENEMY_SPAWN_INTERVAL: u64 = 1_000_000_000;
/// Length of an enemy's movement intent, in steps per tick.
pub const ENEMY_SPEED: u32 = 1_000;
/// Enemies appear at a distance in `ENEMY_SPAWN_DISTANCE_MIN .. ENEMY_SPAWN_DISTANCE_MAX`
/// from the player.
pub const ENEMY_SPAWN_DISTANCE_MIN: u32 = 500_000;
pub const ENEMY_SPAWN_DISTANCE_MAX: u32 = 600_000;

// Gun
/// Nanoseconds from one shot to the next while the trigger is held.
pub const BULLET_SPAWN_INTERVAL: u64 = 200_000_000;
/// Nanoseconds that a bullet lives.
pub const BULLET_TIME: u64 = 1_000_000_000;
/// World units per second travelled by a bullet whose direction has length one.
pub const BULLET_SPEED: i32 = 300;
pub const BULLET_DAMAGE: u32 = 15;
pub const NUM_BULLETS_PER_SHOT: u32 = 1;
/// Each axis of a bullet's direction is shifted by a draw from
/// `-BULLET_JITTER .. BULLET_JITTER`, in thousandths of the direction's length.
pub const BULLET_JITTER: i32 = 200;
/// Distance of the gun from the player's pivot, in world units.
pub const GUN_RADIUS: i32 = 7;
/// Distance of a new bullet from the gun along the aim, in world units.
pub const MUZZLE_OFFSET: i32 = 10;

} // verus!
