use vstd::prelude::*;
use crate::geometry::{clamp_i32, clamp_spec, Point2, ToPixel, TileSize, Vector2};
use crate::level::Level;
use crate::units::{SCREEN_TILES_HEIGHT, SCREEN_TILES_WIDTH, TILE_PIXELS};

verus! {

/// How far, in pixels, the camera leads the ship in the direction it flies.
pub const MAX_OFFSET: i32 = 4 * TILE_PIXELS;

/// One coordinate of the camera: the screen centred on the ship, shifted by
/// the ship's velocity limited to `MAX_OFFSET` either way, then kept inside
/// the level (raised to 0 first, lowered to the far edge last).
pub open spec fn camera_axis(pos: int, vel: int, level_tiles: int, screen_tiles: int) -> int {
    let screen = screen_tiles * TILE_PIXELS;
    let center = pos - screen / 2;
    let offset = clamp_spec(vel, -MAX_OFFSET, MAX_OFFSET as int);
    clamp_spec(center + offset, 0, level_tiles * TILE_PIXELS - screen)
}

/// Whether the camera for a ship at `pos` flying at `vel` can be computed
/// in the pixel coordinate range.
pub open spec fn camera_fits(pos: Point2, vel: Vector2) -> bool {
    &&& pos.x - SCREEN_TILES_WIDTH * TILE_PIXELS / 2 >= i32::MIN
    &&& pos.y - SCREEN_TILES_HEIGHT * TILE_PIXELS / 2 >= i32::MIN
    &&& i32::MIN <= pos.x - SCREEN_TILES_WIDTH * TILE_PIXELS / 2
        + clamp_spec(vel.x as int, -MAX_OFFSET, MAX_OFFSET as int) <= i32::MAX
    &&& i32::MIN <= pos.y - SCREEN_TILES_HEIGHT * TILE_PIXELS / 2
        + clamp_spec(vel.y as int, -MAX_OFFSET, MAX_OFFSET as int) <= i32::MAX
}

/// Whether the camera for a ship at `pos` flying at `vel` can be computed,
/// as `camera_fits` says.
pub fn camera_fits_exec(pos: Point2, vel: Vector2) -> (r: bool)
    ensures
        r == camera_fits(pos, vel),
{
    let half_w = (SCREEN_TILES_WIDTH as i64) * (TILE_PIXELS as i64) / 2;
    let half_h = (SCREEN_TILES_HEIGHT as i64) * (TILE_PIXELS as i64) / 2;
    let cx = pos.x as i64 - half_w;
    let cy = pos.y as i64 - half_h;
    let ox = clamp_i32(vel.x, -MAX_OFFSET, MAX_OFFSET) as i64;
    let oy = clamp_i32(vel.y, -MAX_OFFSET, MAX_OFFSET) as i64;
    let min = i32::MIN as i64;
    let max = i32::MAX as i64;
    cx >= min && cy >= min && min <= cx + ox && cx + ox <= max && min <= cy + oy && cy + oy <= max
}

/// Where the camera (the top left corner of the screen) goes for a ship at
/// `player_pos` flying at `player_vel` through a level of `level_dim` tiles.
pub fn find_camera_pos(player_pos: Point2, player_vel: Vector2, level_dim: TileSize) -> (r: Point2)
    requires
        camera_fits(player_pos, player_vel),
    ensures
        r.x == camera_axis(player_pos.x as int, player_vel.x as int, level_dim.width as int, SCREEN_TILES_WIDTH as int),
        r.y == camera_axis(player_pos.y as int, player_vel.y as int, level_dim.height as int, SCREEN_TILES_HEIGHT as int),
        level_dim.width >= SCREEN_TILES_WIDTH ==> 0 <= r.x <= (level_dim.width - SCREEN_TILES_WIDTH) * TILE_PIXELS,
        level_dim.height >= SCREEN_TILES_HEIGHT ==> 0 <= r.y <= (level_dim.height - SCREEN_TILES_HEIGHT) * TILE_PIXELS,
{
    let screen_w = SCREEN_TILES_WIDTH as i32 * TILE_PIXELS;
    let screen_h = SCREEN_TILES_HEIGHT as i32 * TILE_PIXELS;
    let center_x = player_pos.x - screen_w / 2;
    let center_y = player_pos.y - screen_h / 2;
    let offset_x = clamp_i32(player_vel.x, -MAX_OFFSET, MAX_OFFSET);
    let offset_y = clamp_i32(player_vel.y, -MAX_OFFSET, MAX_OFFSET);
    let level_w = level_dim.width as i32 * TILE_PIXELS;
    let level_h = level_dim.height as i32 * TILE_PIXELS;
    Point2 {
        x: clamp_i32(center_x + offset_x, 0, level_w - screen_w),
        y: clamp_i32(center_y + offset_y, 0, level_h - screen_h),
    }
}

/// The camera at the start of a level: on the ship's spawn point, at rest.
pub open spec fn initial_camera<T>(level: Level<T>) -> Point2 {
    Point2 {
        x: camera_axis(level.spawn_player_pos.x * TILE_PIXELS, 0, level.collision.dim_spec().width as int, SCREEN_TILES_WIDTH as int) as i32,
        y: camera_axis(level.spawn_player_pos.y * TILE_PIXELS, 0, level.collision.dim_spec().height as int, SCREEN_TILES_HEIGHT as int) as i32,
    }
}

/// The camera at the start of a level: on the ship's spawn point, at rest.
pub fn initial<T>(level: &Level<T>) -> (r: Point2)
    ensures
        r == initial_camera(*level),
{
    let start = level.spawn_player_pos.to_pixel();
    find_camera_pos(start, Vector2 { x: 0, y: 0 }, level.collision.dim())
}

} // verus!

verus! {

/// The camera never moves against the ship: a ship further right (down), or
/// flying further right (down), never has the camera further left (up).
/// Equal inputs give the same camera.
pub proof fn law_camera_monotone(a: Point2, b: Point2, u: Vector2, w: Vector2, level_dim: TileSize)
    requires
        a.x <= b.x,
        a.y <= b.y,
        u.x <= w.x,
        u.y <= w.y,
    ensures
        camera_axis(a.x as int, u.x as int, level_dim.width as int, SCREEN_TILES_WIDTH as int)
            <= camera_axis(b.x as int, w.x as int, level_dim.width as int, SCREEN_TILES_WIDTH as int),
        camera_axis(a.y as int, u.y as int, level_dim.height as int, SCREEN_TILES_HEIGHT as int)
            <= camera_axis(b.y as int, w.y as int, level_dim.height as int, SCREEN_TILES_HEIGHT as int),
{
}

} // verus!
