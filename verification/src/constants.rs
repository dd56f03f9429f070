//! Canonical constants of the simulation.
//!
//! Lengths and speeds are in half-units (two half-units are one world unit
//! of the presentation layer); durations are in ticks of the fixed-timestep
//! schedule, with fractional durations rounded up to whole ticks.

use vstd::prelude::*;

verus! {

/// Simulation ticks per second of the fixed-timestep schedule.
pub const TICKS_PER_SECOND: u32 = 60;

/// Height of the in-game status bar strip at the top of the window.
pub const IN_GAME_UI_APP_BAR_HEIGHT: i64 = 64;

/// Full width of one side wall.
pub const WALL_WIDTH: i64 = 36;

/// Full height of one side wall segment.
pub const WALL_HEIGHT: i64 = 1856;

/// Full width of the ceiling hazard strip.
pub const CELLING_WIDTH: i64 = 1008;

/// Full height of the ceiling hazard strip.
pub const CELLING_HEIGHT: i64 = 32;

/// Bit set in a packed network input byte when the player steers left.
pub const INPUT_LEFT: u8 = 1;

/// Bit set in a packed network input byte when the player steers right.
pub const INPUT_RIGHT: u8 = 2;

/// Side length of the player's square collider.
pub const PLAYER_SIZE: i64 = 64;

/// Upper bound of a player's health.
pub const PLAYER_MAX_HEALTH: i64 = 10;

/// Downward speed per tick of a falling player.
pub const FALL_SPEED: i64 = 2;

/// Upward speed per tick of a jumping player.
pub const JUMP_SPEED: i64 = 8;

/// Horizontal speed per tick of a grounded player at full steer.
pub const GROUND_MOVE_SPEED: i64 = 8;

/// Horizontal speed per tick of a flying player at full steer.
pub const FLY_MOVE_SPEED: i64 = 4;

/// Horizontal bias per tick that a conveyor applies to a standing player.
pub const CONVEYOR_SPEED: i64 = 4;

/// Downward speed forced on a player struck by the ceiling hazard.
pub const CEILING_KNOCKBACK_SPEED: i64 = 16;

/// Upward drift per tick shared by bricks and walls.
pub const BRICK_DRIFT_SPEED: i64 = 2;

/// Full width and height of a normal brick's collider.
pub const NORMAL_BRICK_WIDTH: i64 = 190;
/// Full height of a normal brick's collider.
pub const NORMAL_BRICK_HEIGHT: i64 = 32;

/// Full width of a fake (collapsing) brick's collider.
pub const FAKE_BRICK_WIDTH: i64 = 194;
/// Full height of a fake (collapsing) brick's collider.
pub const FAKE_BRICK_HEIGHT: i64 = 36;

/// Full width of a nails brick's solid collider and of its spike hitbox.
pub const NAILS_BRICK_WIDTH: i64 = 192;
/// Full height of a nails brick's solid collider and of its spike hitbox.
pub const NAILS_BRICK_HEIGHT: i64 = 32;
/// Vertical offset from a nails brick's position to each of its two boxes:
/// the spike hitbox sits this far above, the solid collider this far below.
pub const NAILS_BRICK_OFFSET: i64 = 31;

/// Full width of a spring brick's collider.
pub const SPRING_BRICK_WIDTH: i64 = 194;
/// Full height of a spring brick's collider.
pub const SPRING_BRICK_HEIGHT: i64 = 44;

/// Full width of a conveyor brick's collider.
pub const CONVEYOR_BRICK_WIDTH: i64 = 192;
/// Full height of a conveyor brick's collider.
pub const CONVEYOR_BRICK_HEIGHT: i64 = 32;

/// Ticks a jump lasts once granted by a spring brick.
pub const JUMPING_TICKS: u32 = 13;

/// Ticks of damage cooldown after a hit from nails or the ceiling.
pub const DAMAGING_TICKS: u32 = 75;

/// Ticks between a fake brick's triggering and the start of its flip.
pub const FAKE_FLIP_DELAY_TICKS: u32 = 10;

/// Ticks a fake brick spends flipping, with its collider withdrawn.
pub const FAKE_FLIP_TICKS: u32 = 30;

/// Ticks a spring brick stays in its sprung animation state.
pub const SPRING_STATE_TICKS: u32 = 20;

/// Ticks a player struck by the ceiling spends without a collider.
pub const CEILING_HURT_TICKS: u32 = 8;

/// Ticks between two increments of the shared score counter.
pub const SCORE_INTERVAL_TICKS: u32 = 180;

/// Magnitude bound on how far one tick can move any entity: one velocity
/// step plus one collision snap, with room to spare.  A state whose
/// positions (and wall anchors) leave this much headroom below
/// `TICK_POS_LIMIT` still meets the start-of-tick bound after the tick.
pub const TICK_DRIFT_LIMIT: i64 = 0x4_0000;

/// Magnitude bound on entity positions at the start of a tick; one tick
/// of drift and snapping never moves an entity further than `POS_LIMIT`
/// beyond it.
pub const TICK_POS_LIMIT: i64 = 0x3FFF_FFF0_0000;

/// Magnitude bound on entity positions that every stored state respects;
/// box arithmetic stays within `i64` for any position below it.
pub const POS_LIMIT: i64 = 0x4000_0000_0000;

/// Magnitude bound on collider extents, collider offsets and speeds.
pub const SIZE_LIMIT: i64 = 0x10000;

} // verus!
