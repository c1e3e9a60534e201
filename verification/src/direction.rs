use vstd::prelude::*;
use crate::geometry::signum_spec;

verus! {

/// One of the four axis directions, in screen coordinates (y grows downwards).
#[derive(Clone, Copy, PartialEq, Eq, Structural, Debug, Hash)]
pub enum Dir4 {
    Up,
    Right,
    Down,
    Left,
}

/// One of the eight axis and diagonal directions, in screen coordinates.
#[derive(Clone, Copy, PartialEq, Eq, Structural, Debug, Hash)]
pub enum Dir8 {
    Up,
    UpRight,
    Right,
    DownRight,
    Down,
    DownLeft,
    Left,
    UpLeft,
}

impl Dir4 {
    /// Horizontal component of the unit step in this direction.
    pub open spec fn dx(self) -> int {
        match self { Dir4::Right => 1, Dir4::Left => -1, _ => 0 }
    }

    /// Vertical component of the unit step in this direction.
    pub open spec fn dy(self) -> int {
        match self { Dir4::Down => 1, Dir4::Up => -1, _ => 0 }
    }

    /// Quarter turns clockwise (on screen) from up.
    pub open spec fn quarter_turns_spec(self) -> int {
        match self { Dir4::Up => 0, Dir4::Right => 1, Dir4::Down => 2, Dir4::Left => 3 }
    }

    /// Quarter turns clockwise (on screen) from up: 0 to 3.
    pub fn quarter_turns(self) -> (r: u8)
        ensures
            r == self.quarter_turns_spec(),
    {
        match self { Dir4::Up => 0, Dir4::Right => 1, Dir4::Down => 2, Dir4::Left => 3 }
    }

    /// The same direction among the eight directions.
    pub open spec fn embed_spec(self) -> Dir8 {
        match self {
            Dir4::Up => Dir8::Up,
            Dir4::Right => Dir8::Right,
            Dir4::Down => Dir8::Down,
            Dir4::Left => Dir8::Left,
        }
    }

    /// The same direction among the eight directions.
    pub fn embed(self) -> (r: Dir8)
        ensures
            r == self.embed_spec(),
            r.dx() == self.dx(),
            r.dy() == self.dy(),
    {
        match self {
            Dir4::Up => Dir8::Up,
            Dir4::Right => Dir8::Right,
            Dir4::Down => Dir8::Down,
            Dir4::Left => Dir8::Left,
        }
    }
}

/// The direction whose step has the signs of `dx` and `dy`; none for the zero
/// vector.
pub open spec fn dir8_from_signs(dx: int, dy: int) -> Option<Dir8> {
    if dx > 0 {
        if dy > 0 { Some(Dir8::DownRight) } else if dy < 0 { Some(Dir8::UpRight) } else { Some(Dir8::Right) }
    } else if dx < 0 {
        if dy > 0 { Some(Dir8::DownLeft) } else if dy < 0 { Some(Dir8::UpLeft) } else { Some(Dir8::Left) }
    } else {
        if dy > 0 { Some(Dir8::Down) } else if dy < 0 { Some(Dir8::Up) } else { None }
    }
}

impl Dir8 {
    /// Horizontal component of the step in this direction.
    pub open spec fn dx(self) -> int {
        match self {
            Dir8::UpRight | Dir8::Right | Dir8::DownRight => 1,
            Dir8::DownLeft | Dir8::Left | Dir8::UpLeft => -1,
            _ => 0,
        }
    }

    /// Vertical component of the step in this direction.
    pub open spec fn dy(self) -> int {
        match self {
            Dir8::DownRight | Dir8::Down | Dir8::DownLeft => 1,
            Dir8::UpRight | Dir8::Up | Dir8::UpLeft => -1,
            _ => 0,
        }
    }

    /// Eighth turns clockwise (on screen) from up.
    pub open spec fn eighth_turns_spec(self) -> int {
        match self {
            Dir8::Up => 0,
            Dir8::UpRight => 1,
            Dir8::Right => 2,
            Dir8::DownRight => 3,
            Dir8::Down => 4,
            Dir8::DownLeft => 5,
            Dir8::Left => 6,
            Dir8::UpLeft => 7,
        }
    }

    /// Eighth turns clockwise (on screen) from up: 0 to 7.
    pub fn eighth_turns(self) -> (r: u8)
        ensures
            r == self.eighth_turns_spec(),
    {
        match self {
            Dir8::Up => 0,
            Dir8::UpRight => 1,
            Dir8::Right => 2,
            Dir8::DownRight => 3,
            Dir8::Down => 4,
            Dir8::DownLeft => 5,
            Dir8::Left => 6,
            Dir8::UpLeft => 7,
        }
    }

    /// The direction whose step has the signs of `dx` and `dy`; `None` for the
    /// zero vector.
    pub fn from_signs(dx: i32, dy: i32) -> (r: Option<Dir8>)
        ensures
            r == dir8_from_signs(dx as int, dy as int),
            r is None <==> (dx == 0 && dy == 0),
            r matches Some(d) ==> d.dx() == signum_spec(dx as int) && d.dy() == signum_spec(dy as int),
    {
        if dx > 0 {
            if dy > 0 { Some(Dir8::DownRight) } else if dy < 0 { Some(Dir8::UpRight) } else { Some(Dir8::Right) }
        } else if dx < 0 {
            if dy > 0 { Some(Dir8::DownLeft) } else if dy < 0 { Some(Dir8::UpLeft) } else { Some(Dir8::Left) }
        } else {
            if dy > 0 { Some(Dir8::Down) } else if dy < 0 { Some(Dir8::Up) } else { None }
        }
    }

    /// The axis direction equal to `self`; `None` for a diagonal.
    pub fn split(self) -> (r: Option<Dir4>)
        ensures
            r is None <==> (self.dx() != 0 && self.dy() != 0),
            r matches Some(d) ==> d.dx() == self.dx() && d.dy() == self.dy(),
    {
        match self {
            Dir8::Up => Some(Dir4::Up),
            Dir8::Right => Some(Dir4::Right),
            Dir8::Down => Some(Dir4::Down),
            Dir8::Left => Some(Dir4::Left),
            _ => None,
        }
    }
}

} // verus!
