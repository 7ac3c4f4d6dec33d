//! Units of measure and the fixed dimensions of the playing field.

use crate::geometry::Size;
use vstd::prelude::*;

verus! {

/// Position ticks in one world unit.
pub const UNIT: i64 = 10_000_000;

/// Microseconds in one second; frame times and timers count microseconds.
pub const SECOND: u64 = 1_000_000;

/// A multiplier or a scale of exactly one, both being counted in tenths.
pub const ONE: u32 = 10;

/// Width of the visible screen, which is centred on `x = 0`.
pub const SCREEN_WIDTH: i64 = 1200 * UNIT;

/// Half the screen width: the right screen edge, and the look-back distance
/// kept behind the left one before an object is retired.
pub const SCREEN_HALF_WIDTH: i64 = 600 * UNIT;

/// Height at which ground segments lie.
pub const GROUND_Y: i64 = -320 * UNIT;

/// Where the player starts.
pub const PLAYER_SPAWN_X: i64 = -500 * UNIT;

/// Where a fresh ground segment is placed, and the mark that the trailing
/// edge of a segment has to pass before one is: twice the screen width.
pub const GROUND_SPAWN_X: i64 = 2400 * UNIT;

/// Length of a ground segment.
pub const GROUND_LENGTH: u64 = 27_000_000_000;

/// Length of an enemy.
pub const ENEMY_LENGTH: u64 = 1_050_000_000;

/// Length of a power-up.
pub const POWER_UP_LENGTH: u64 = 700_000_000;

/// Width of the player's box.
pub const PLAYER_WIDTH: u64 = 1_400_000_000;

/// Height of the player's box.
pub const PLAYER_HEIGHT: u64 = 900_000_000;

/// Height of a ground segment's box; its width is the segment's length.
pub const GROUND_HEIGHT: u64 = 300_000_000;

/// Side of an enemy's box, which is square.
pub const ENEMY_SIDE: u64 = 500_000_000;

/// Side of a power-up's box, which is square.
pub const POWER_UP_SIDE: u64 = 700_000_000;

/// The box of the player: 140 by 90 world units.
pub open spec fn spec_player_size() -> Size {
    Size { width: PLAYER_WIDTH, height: PLAYER_HEIGHT }
}

/// The box of the player: 140 by 90 world units.
#[verifier::when_used_as_spec(spec_player_size)]
pub fn player_size() -> (size: Size)
    ensures
        size == spec_player_size(),
{
    Size { width: PLAYER_WIDTH, height: PLAYER_HEIGHT }
}

/// The box of a ground segment: 2700 by 30 world units.
pub open spec fn spec_ground_size() -> Size {
    Size { width: GROUND_LENGTH, height: GROUND_HEIGHT }
}

/// The box of a ground segment: 2700 by 30 world units.
#[verifier::when_used_as_spec(spec_ground_size)]
pub fn ground_size() -> (size: Size)
    ensures
        size == spec_ground_size(),
{
    Size { width: GROUND_LENGTH, height: GROUND_HEIGHT }
}

/// The box of an enemy: 50 world units square.
pub open spec fn spec_enemy_size() -> Size {
    Size { width: ENEMY_SIDE, height: ENEMY_SIDE }
}

/// The box of an enemy: 50 world units square.
#[verifier::when_used_as_spec(spec_enemy_size)]
pub fn enemy_size() -> (size: Size)
    ensures
        size == spec_enemy_size(),
{
    Size { width: ENEMY_SIDE, height: ENEMY_SIDE }
}

/// The box of a power-up: 70 world units square.
pub open spec fn spec_power_up_size() -> Size {
    Size { width: POWER_UP_SIDE, height: POWER_UP_SIDE }
}

/// The box of a power-up: 70 world units square.
#[verifier::when_used_as_spec(spec_power_up_size)]
pub fn power_up_size() -> (size: Size)
    ensures
        size == spec_power_up_size(),
{
    Size { width: POWER_UP_SIDE, height: POWER_UP_SIDE }
}

/// Scroll speed of everything that scrolls, in world units per second.
pub const SCROLL_SPEED: u32 = 300;

/// How far above the ground line an enemy is placed.
pub const ENEMY_RISE: i64 = 45 * UNIT;

/// Spacing of the slots ahead of the right screen edge in which enemies and
/// power-ups appear.
pub const SPAWN_STEP: i64 = 500 * UNIT;

/// How far ahead of the right screen edge a power-up appears for every
/// microsecond of the delay drawn for it: 500 world units per second.
pub const POWER_UP_ADVANCE: i64 = 5_000;

/// Fall of the player in ticks per microsecond: 500 world units per second.
pub const GRAVITY: i64 = 5_000;

/// Climb of the player during the fast rise of a jump, in ticks per
/// microsecond: 900 world units per second.
pub const JUMP_RISE: i64 = 9_000;

/// Climb of the player while a jump settles, in ticks per microsecond:
/// 100 world units per second.
pub const JUMP_SETTLE: i64 = 1_000;

/// Time after the start of a jump at which the fast rise ends.
pub const JUMP_RISE_END: u64 = 300_000;

/// Time after the start of a jump at which the jump is over.
pub const JUMP_END: u64 = 400_000;

/// Height gained over a whole jump: the fast rise for three tenths of a
/// second and the settling for one tenth more, 280 world units in all.
pub const JUMP_HEIGHT: i64 = 2_800_000_000;

/// Time between two steps of the difficulty ramp.
pub const DIFFICULTY_PERIOD: u64 = 4 * SECOND;

/// Points for collecting a power-up.
pub const POWER_UP_SCORE: u64 = 150;

/// Enemies alive at once, at most.
pub const MAX_ENEMIES: usize = 3;

/// Ground segments alive at once, at most.
pub const MAX_GROUNDS: usize = 2;

/// Least delay a power-up may be drawn to wait for.
pub const POWER_UP_DELAY_MIN: u64 = 8 * SECOND;

/// Bound below which every power-up delay is drawn.
pub const POWER_UP_DELAY_END: u64 = 14 * SECOND;

/// Number of slots an enemy can be drawn into; slots count from one.
pub const ENEMY_SLOTS: u64 = 6;

} // verus!
