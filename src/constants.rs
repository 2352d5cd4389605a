//! Tunable sizes and rates of the game, in fixed point (see `fixed`).
use vstd::prelude::*;
use crate::fixed::UNIT;

verus! {

/// World length of one side of a square terrain chunk.
pub const CHUNK_SIZE: i64 = 400 * UNIT;
/// Chunks along the sheet.
pub const NUM_CHUNKS: usize = 15;
/// Height-field cells along one side of a chunk; also the rows of one chunk band.
pub const CELL_SIZE: usize = 140;
/// World length of the whole sheet.
pub const SHEET_TOTAL: i64 = CHUNK_SIZE * 15;
/// Run-up in front of the first chunk.
pub const SHEET_PRE_AREA: i64 = 50 * UNIT;

pub const STONE_RADIUS: i64 = 10 * UNIT;
/// Below this speed the stone counts as stopped.
pub const STONE_STOP_VEL: i64 = 500;
pub const STONE_MAX_VEL: i64 = 500 * UNIT;
/// Angular damping of a fresh stone, over `ONE`.
pub const STONE_ANGULAR_DAMPENING: u64 = 40_000;
/// Speed and height under which the stone's spin is damped harder.
pub const STONE_ANGULAR_DAMPENING_INC_START_AT: i64 = 20 * UNIT;
/// Extra angular damping per second, over `ONE`.
pub const STONE_ANGULAR_DAMPENING_INC_AMOUNT: u64 = 15_000;

/// Forward speed of a stone waiting at the start line.
pub const STONE_START_VEL: i64 = 160 * UNIT;

pub const STONE_X: i64 = 0;
pub const STONE_Y: i64 = 200 * UNIT;
pub const STONE_Z: i64 = SHEET_PRE_AREA - CHUNK_SIZE;

/// The hole sits at the centre of the last chunk.
pub const TARGET_X: i64 = 0;
pub const TARGET_Y: i64 = 0;
pub const TARGET_Z: i64 = SHEET_TOTAL - CHUNK_SIZE;

/// Height that full-strength noise raises the terrain to.
pub const MAX_TERRAIN_HEIGHT: i64 = 20 * UNIT;
/// Height of the halfpipe walls at the very edges of the sheet.
pub const HALFPIPE_HEIGHT: i64 = 50 * UNIT;

/// Sculpting closer than this to the stone is refused.
pub const MIN_SCULPT_DIST_FROM_STONE: i64 = 18 * UNIT;
/// The pointer must move this far before another sculpt edit goes out.
pub const SCULPT_MOVE_THRESHOLD: i64 = UNIT;
/// Radius, in cells, of the sculpting brush.
pub const SCULPT_RADIUS: usize = 4;
/// Height added at the brush centre by one raising edit (`0.5 * 0.8`).
pub const SCULPT_RAISE_STEP: i64 = 400;
/// Height removed at the brush centre by one lowering edit (`0.5 * 0.8`).
pub const SCULPT_LOWER_STEP: i64 = 400;

/// Milliseconds of holding to reach full hurl power.
pub const STONE_HURL_POWERUP_TIME: u64 = 3000;
/// Launch sideways speed per unit of aim angle.
pub const STONE_HURL_AIM_ANGLE_MULTIPLIER: i64 = 200;
/// Downward speed given to a hurled stone.
pub const STONE_HURL_DROP_VEL: i64 = 100 * UNIT;

/// Milliseconds before an undecided aim fires by itself.
pub const AIM_TIMEOUT: u64 = 25_000;
/// Milliseconds the result of a round stays up.
pub const STOPPED_DELAY: u64 = 20_000;
/// Milliseconds of the splash screen.
pub const SPLASH_DELAY: u64 = 15_000;
/// A click is taken as a confirmation only after this many whole seconds.
pub const CONFIRM_GRACE_SECS: u64 = 1;
/// Best distance before any round is played.
pub const INITIAL_HI_SCORE: i64 = 2000 * UNIT;
/// Speed change of one manual nudge.
pub const CHEAT_NUDGE: i64 = 500;

} // verus!
