//! The game's own rules: screen and room geometry, the player's timers,
//! tile grids, switches and buttons, sprite playback and the scene record.
use vstd::prelude::*;

pub mod sprite;
pub mod player;
pub mod room;
pub mod scene;
pub mod switch;

verus! {

/// Rooms across the world map.
pub const ROOM_COUNT_W: usize = 4;
/// Rooms down the world map.
pub const ROOM_COUNT_H: usize = 4;
/// Side of a tile, in pixels.
pub const TILE_SIZE: usize = 8;
/// Width of the low-resolution game image, in pixels.
pub const GAME_PIXEL_WIDTH: usize = 320;
/// Height of the low-resolution game image, in pixels.
pub const GAME_PIXEL_HEIGHT: usize = 184;
/// Width of the window: the game image scaled four times.
pub const SCREEN_WIDTH: usize = GAME_PIXEL_WIDTH * 4;
/// Height of the window: the game image scaled four times.
pub const SCREEN_HEIGHT: usize = GAME_PIXEL_HEIGHT * 4;
/// Tiles across a room.
pub const GAME_TILE_WIDTH: usize = GAME_PIXEL_WIDTH / TILE_SIZE;
/// Tiles down a room.
pub const GAME_TILE_HEIGHT: usize = GAME_PIXEL_HEIGHT / TILE_SIZE;
/// Tiles in a room.
#[verifier::nonlinear]
pub const GAME_TILE_COUNT: usize = GAME_TILE_WIDTH * GAME_TILE_HEIGHT;

/// A room is a whole number of tiles, and the window a whole multiple of
/// the game image.
pub proof fn lemma_geometry()
    ensures
        GAME_TILE_WIDTH * TILE_SIZE == GAME_PIXEL_WIDTH,
        GAME_TILE_HEIGHT * TILE_SIZE == GAME_PIXEL_HEIGHT,
        GAME_TILE_WIDTH == 40,
        GAME_TILE_HEIGHT == 23,
        GAME_TILE_COUNT == 920,
        SCREEN_WIDTH == 1280,
        SCREEN_HEIGHT == 736,
{
}

/// The size of the window the game asks for.
pub fn get_config() -> (r: crate::common::GameConfig)
    ensures
        r.window_width == SCREEN_WIDTH,
        r.window_height == SCREEN_HEIGHT,
{
    crate::common::GameConfig {
        window_width: SCREEN_WIDTH as u32,
        window_height: SCREEN_HEIGHT as u32,
    }
}

} // verus!
