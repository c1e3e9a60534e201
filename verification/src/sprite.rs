use vstd::prelude::*;
use crate::geometry::{Point2, TilePoint, TileRect};

verus! {

/// How to draw one sprite: where its top left corner goes on the screen, the
/// part of its image to take (in tiles), and its depth.
#[derive(Clone, Copy, PartialEq, Eq, Structural, Debug)]
pub struct SpriteDraw {
    pub dest: Point2,
    pub atlas: TileRect,
    pub z: i32,
}

/// A sprite that is turned by quarter turns (clockwise on the screen) about
/// `pivot`, in pixels from its top left corner; `anchor` is the tile of the
/// image part that stays at `dest`.
#[derive(Clone, Copy, PartialEq, Eq, Structural, Debug)]
pub struct RotatedSpriteDraw {
    pub sprite: SpriteDraw,
    pub quarter_turns: u8,
    pub anchor: TilePoint,
    pub pivot: Point2,
}

/// Whether a position seen from `camera` fits the pixel coordinate range.
pub open spec fn on_screen_fits(pos: Point2, camera: Point2) -> bool {
    &&& i32::MIN <= pos.x - camera.x <= i32::MAX
    &&& i32::MIN <= pos.y - camera.y <= i32::MAX
}

/// A world position seen from `camera`: its place on the screen.
pub open spec fn screen_pos(pos: Point2, camera: Point2) -> Point2 {
    Point2 { x: (pos.x - camera.x) as i32, y: (pos.y - camera.y) as i32 }
}

/// Whether a position seen from `camera` fits, as `on_screen_fits` says.
pub fn on_screen_fits_exec(pos: Point2, camera: Point2) -> (r: bool)
    ensures
        r == on_screen_fits(pos, camera),
{
    let x = pos.x as i64 - camera.x as i64;
    let y = pos.y as i64 - camera.y as i64;
    i32::MIN as i64 <= x && x <= i32::MAX as i64 && i32::MIN as i64 <= y && y <= i32::MAX as i64
}

/// Where a level's picture goes on the screen: its top left corner is the
/// world origin, seen from `camera`.
pub fn level_dest(camera: Point2) -> (r: Point2)
    requires
        camera.x != i32::MIN,
        camera.y != i32::MIN,
    ensures
        r == screen_pos(Point2 { x: 0, y: 0 }, camera),
{
    Point2 { x: -camera.x, y: -camera.y }
}

/// Computes `screen_pos`.
pub fn to_screen(pos: Point2, camera: Point2) -> (r: Point2)
    requires
        on_screen_fits(pos, camera),
    ensures
        r == screen_pos(pos, camera),
{
    Point2 { x: pos.x - camera.x, y: pos.y - camera.y }
}

} // verus!
