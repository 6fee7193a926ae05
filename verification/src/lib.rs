//! Runtime core of a small arcade game for a monochrome, bit-plane-addressed
//! display: stripe/pixel rendering, mirrored level-geometry expansion, the
//! player/monster entity model, and the playing/game-over state machine.

use vstd::prelude::*;

pub mod codec;
pub mod game;
pub mod screen;

pub use codec::{reverse_bits, mirror_v, mirror_h, Walls, WallsData};
pub use game::{BasicMonster, Engine, Entity, LevelState, Player, State};
pub use screen::{clear_screen, draw_sprite, fill_screen, Peripherals, ScreenBuffer};

verus! {

/// Screen width in pixels; columns are addressed `0..SCREEN_WIDTH`.
pub const SCREEN_WIDTH: u8 = 128;

/// Screen height in pixels; each column is split into 8-pixel stripes.
pub const SCREEN_HEIGHT: u8 = 64;

/// Number of grid columns in a level layout.
pub const LEVEL_WIDTH: u8 = 11;

/// Number of grid rows in a level layout.
pub const LEVEL_HEIGHT: u8 = 6;

} // verus!
