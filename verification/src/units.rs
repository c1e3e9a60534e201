use vstd::prelude::*;

verus! {

/// Side length of a tile, in pixels.
pub const TILE_PIXELS: i32 = 8;

/// Width of the visible screen, in tiles.
pub const SCREEN_TILES_WIDTH: u8 = 32;

/// Height of the visible screen, in tiles.
pub const SCREEN_TILES_HEIGHT: u8 = 18;

/// Number of full frames per second; a frame is split into subframes.
pub const FULL_FRAME_FPS: u32 = 5;

/// Number of levels of the game.
pub const NUM_LEVELS: usize = 8;

/// Unit marker for tile coordinates (one unit is one tile).
pub struct Tile;

/// Unit marker for pixel coordinates (one unit is one pixel).
pub struct Pixel;

} // verus!
