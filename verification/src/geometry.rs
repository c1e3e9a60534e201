use vstd::prelude::*;
use crate::units::TILE_PIXELS;

verus! {

/// A position in pixel coordinates (y grows downwards).
#[derive(Clone, Copy, PartialEq, Eq, Structural, Debug)]
pub struct Point2 {
    pub x: i32,
    pub y: i32,
}

/// A displacement or velocity in pixels.
#[derive(Clone, Copy, PartialEq, Eq, Structural, Debug)]
pub struct Vector2 {
    pub x: i32,
    pub y: i32,
}

/// An extent in pixels.
#[derive(Clone, Copy, PartialEq, Eq, Structural, Debug)]
pub struct Size2 {
    pub width: i32,
    pub height: i32,
}

/// An axis-aligned rectangle in pixels: `origin` is its least corner.
#[derive(Clone, Copy, PartialEq, Eq, Structural, Debug)]
pub struct PixelRect {
    pub origin: Point2,
    pub size: Size2,
}

/// A position in tile coordinates.
#[derive(Clone, Copy, PartialEq, Eq, Structural, Debug)]
pub struct TilePoint {
    pub x: u8,
    pub y: u8,
}

/// An extent in tiles.
#[derive(Clone, Copy, PartialEq, Eq, Structural, Debug)]
pub struct TileSize {
    pub width: u8,
    pub height: u8,
}

/// An axis-aligned rectangle in tiles.
#[derive(Clone, Copy, PartialEq, Eq, Structural, Debug)]
pub struct TileRect {
    pub origin: TilePoint,
    pub size: TileSize,
}

/// `v` clamped to `[lo, hi]`, taking the lower bound first and the upper bound
/// last, so that `hi` wins where the bounds cross.
pub open spec fn clamp_spec(v: int, lo: int, hi: int) -> int {
    let raised = if v < lo { lo } else { v };
    if raised > hi { hi } else { raised }
}

/// Clamps `v` to `[lo, hi]`: first raised to `lo`, then lowered to `hi`.
pub fn clamp_i32(v: i32, lo: i32, hi: i32) -> (r: i32)
    ensures
        r == clamp_spec(v as int, lo as int, hi as int),
{
    let raised = if v < lo { lo } else { v };
    if raised > hi { hi } else { raised }
}

/// Sign of an integer: -1, 0 or 1.
pub open spec fn signum_spec(v: int) -> int {
    if v > 0 { 1 } else if v < 0 { -1 } else { 0 }
}

/// Absolute value of an integer.
pub open spec fn abs_spec(v: int) -> int {
    if v < 0 { -v } else { v }
}

impl PixelRect {
    /// Least corner (the origin).
    pub open spec fn min_x(self) -> int { self.origin.x as int }
    pub open spec fn min_y(self) -> int { self.origin.y as int }

    /// Greatest corner: origin plus size.
    pub open spec fn max_x(self) -> int { self.origin.x + self.size.width }
    pub open spec fn max_y(self) -> int { self.origin.y + self.size.height }

    /// Twice the centre: exact even where the centre falls between pixels.
    pub open spec fn center2_x(self) -> int { 2 * self.origin.x + self.size.width }
    pub open spec fn center2_y(self) -> int { 2 * self.origin.y + self.size.height }
}

/// Square of the distance between the centres of two rectangles, scaled by
/// four (the distance between the doubled centres, squared).
pub open spec fn center_distance4_sq(a: PixelRect, b: PixelRect) -> int {
    let dx = a.center2_x() - b.center2_x();
    let dy = a.center2_y() - b.center2_y();
    dx * dx + dy * dy
}

/// The scaled squared distance is never negative.
pub proof fn lemma_center_distance4_sq_nonneg(a: PixelRect, b: PixelRect)
    ensures
        center_distance4_sq(a, b) >= 0,
{
    let dx = a.center2_x() - b.center2_x();
    let dy = a.center2_y() - b.center2_y();
    assert(dx * dx >= 0 && dy * dy >= 0) by (nonlinear_arith);
}

/// Computes `center_distance4_sq`.
pub fn center_distance4_sq_exec(a: PixelRect, b: PixelRect) -> (r: u128)
    ensures
        r as int == center_distance4_sq(a, b),
{
    let ax = 2 * (a.origin.x as i128) + a.size.width as i128;
    let ay = 2 * (a.origin.y as i128) + a.size.height as i128;
    let bx = 2 * (b.origin.x as i128) + b.size.width as i128;
    let by = 2 * (b.origin.y as i128) + b.size.height as i128;
    let dx = ax - bx;
    let dy = ay - by;
    let ux: u128 = if dx < 0 { (-dx) as u128 } else { dx as u128 };
    let uy: u128 = if dy < 0 { (-dy) as u128 } else { dy as u128 };
    assert(ux * ux + uy * uy == dx * dx + dy * dy) by (nonlinear_arith)
        requires ux == abs_spec(dx as int), uy == abs_spec(dy as int);
    assert(ux <= 0x4_0000_0000 && uy <= 0x4_0000_0000);
    assert(ux * ux <= 0x10_0000_0000_0000_0000) by (nonlinear_arith)
        requires ux <= 0x4_0000_0000;
    assert(uy * uy <= 0x10_0000_0000_0000_0000) by (nonlinear_arith)
        requires uy <= 0x4_0000_0000;
    ux * ux + uy * uy
}

impl TilePoint {
    /// The same position in pixels.
    pub open spec fn to_pixel_spec(self) -> Point2 {
        Point2 { x: (self.x * TILE_PIXELS) as i32, y: (self.y * TILE_PIXELS) as i32 }
    }
}

impl TileSize {
    /// The same extent in pixels.
    pub open spec fn to_pixel_spec(self) -> Size2 {
        Size2 { width: (self.width * TILE_PIXELS) as i32, height: (self.height * TILE_PIXELS) as i32 }
    }
}

impl TileRect {
    /// The same rectangle in pixels.
    pub open spec fn to_pixel_spec(self) -> PixelRect {
        PixelRect { origin: self.origin.to_pixel_spec(), size: self.size.to_pixel_spec() }
    }
}

/// Conversion from tile coordinates to pixel coordinates.
pub trait ToPixel {
    type Output;

    /// The same value in pixels.
    fn to_pixel(self) -> Self::Output;
}

impl ToPixel for TilePoint {
    type Output = Point2;

    /// Scales by the tile size.
    fn to_pixel(self) -> (r: Point2)
        ensures
            r == self.to_pixel_spec(),
    {
        Point2 { x: self.x as i32 * TILE_PIXELS, y: self.y as i32 * TILE_PIXELS }
    }
}

impl ToPixel for TileSize {
    type Output = Size2;

    /// Scales by the tile size.
    fn to_pixel(self) -> (r: Size2)
        ensures
            r == self.to_pixel_spec(),
    {
        Size2 { width: self.width as i32 * TILE_PIXELS, height: self.height as i32 * TILE_PIXELS }
    }
}

impl ToPixel for TileRect {
    type Output = PixelRect;

    /// Scales origin and size by the tile size.
    fn to_pixel(self) -> (r: PixelRect)
        ensures
            r == self.to_pixel_spec(),
    {
        PixelRect { origin: self.origin.to_pixel(), size: self.size.to_pixel() }
    }
}

} // verus!
