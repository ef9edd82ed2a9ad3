//! Tuning constants of the simulation, in fixed-point units.
//!
//! Angles are measured in micro-radians: a full turn is `PI_2`. Lengths (ring
//! radii, speeds along the radius) are whole length units. Times are in
//! milliseconds.
use vstd::prelude::*;

verus! {

/// Logic updates per second that the host loop aims for.
pub const DESIRED_FPS: u32 = 60;

/// Thickness of a ring.
pub const LEVEL_FILL_RADIUS: i64 = 25;

/// Gap between two rings.
pub const LEVEL_SPACE_RADIUS: i64 = 20;

/// Distance between the radii of two neighbouring rings.
pub const LEVEL_RADIUS: i64 = LEVEL_FILL_RADIUS + LEVEL_SPACE_RADIUS;

/// Radius of the goal ring (ring 0).
pub const FINAL_RADIUS: i64 = 80;

/// Half a turn, π, in micro-radians (rounded to an even count, so that a
/// quarter turn is exact too).
pub const PI: i64 = 3_141_592;

/// A full turn, 2π, in micro-radians.
pub const PI_2: i64 = 2 * PI;

/// A quarter turn, π/2, in micro-radians: half of `PI`.
pub const FRAC_PI_2: i64 = 1_570_796;

/// Micro-radians per radian.
pub const MICRO: i64 = 1_000_000;

/// Angular step of the advanced control mode.
pub const HORIZONTAL_SPEED: i64 = 160_000;

/// Angular speed of a fresh key press.
pub const HORIZONTAL_SPEED_MIN: i64 = 40_000;

/// Highest angular speed that holding a key reaches.
pub const HORIZONTAL_SPEED_MAX: i64 = 200_000;

/// Speed gained for each started 100 ms of a held key.
pub const HORIZONTAL_SPEED_STEP: i64 = 10_000;

/// Radial distance covered per tick while moving between rings.
pub const VERTICAL_SPEED: i64 = 3;

/// Countdown of one level attempt, in milliseconds.
pub const GAME_TIME_MS: u64 = 15_000;

/// Width of one life mark on screen.
pub const LIFE_SIZE: u32 = 4;

/// Lives at the start of a run.
pub const PLAYER_LIFE: u32 = 3;

/// Ring on which the player starts.
pub const PLAYER_START_LEVEL: i32 = 8;

/// Angle at which the player starts (π/2).
pub const PLAYER_START_ANGLE: i64 = FRAC_PI_2;

/// Visual width of the player's triangle.
pub const PLAYER_SIZE: i64 = 8;

/// Angular speed of the rotating obstacle rings.
pub const OBSTACLE_SPEED: i64 = 10_000;

/// Highest ring that the layout generator accepts: up to there a slot is
/// wide enough in micro-radians for its obstacle to leave a gap to the next.
pub const LAYOUT_LEVEL_MAX: usize = 2000;

/// Highest ring that a generated layout fills.
pub const OBSTACLE_LEVELS: usize = 7;

/// Scale of the fixed-point sine and cosine (the value of sin(π/2)).
pub const TRIG_SCALE: i64 = 10_000;

/// Bound on the magnitude of every radius and size that geometry accepts.
pub const RADIUS_LIMIT: i64 = 100_000_000_000;

} // verus!
