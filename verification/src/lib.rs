//! A deterministic, tick-driven 2D dodging game: a player disc on a bounded
//! field avoids waves of hostile "dasher" discs that spawn at the top edge
//! and traverse the field in bursts.
//!
//! All coordinates and velocities are integers counting quarter units of the
//! 400 x 400 logical field, so every motion rule of the game -- including the
//! diagonal movers' three-quarter horizontal speed -- is exact integer
//! arithmetic.

use vstd::prelude::*;

pub mod table;
pub mod game;
pub mod player;
pub mod dasher;
pub mod danger;
pub mod waves;
pub mod rng;
pub mod laws;

pub use game::{Game, GameObjectId, GameView, Position};
pub use player::Player;
pub use dasher::Dasher;
pub use danger::Danger;
pub use waves::{Threat, WaveSpawner};

verus! {

/// Width of the play field in quarter units (400 logical units).
pub const GAME_SCREEN_WIDTH: i64 = 1600;

/// Height of the play field in quarter units (400 logical units).
pub const GAME_SCREEN_HEIGHT: i64 = 1600;

/// Magnitude bound on freshly created coordinates; far beyond the field,
/// only to keep all position arithmetic inside `i64`.
pub const POS_LIMIT: i64 = 0x1000_0000_0000_0000;

/// Magnitude bound on velocities and radii.
pub const VEL_LIMIT: i64 = 0x4000_0000;

/// Position slack after a movement pass: one velocity plus one wrap.
pub const MOVE_SLACK: i64 = 0x8000_0000;

/// Position slack after a whole tick: two movement passes.
pub const STEP_SLACK: i64 = 0x1_0000_0000;

/// Bound within which the distance computations stay exact in `i128`.
pub const COORD_LIMIT: i64 = 0x2000_0000_0000_0000;

} // verus!
