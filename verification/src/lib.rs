//! Game logic of a small top-down space game: a ship steered through tile
//! levels, bouncing off bumpers, pulled by black holes, racing to a portal.
//! Everything that decides or computes lives here; drawing, audio playback,
//! windowing and file access are performed by the host program, which feeds
//! plain values in and carries out the commands that come back.

pub mod units;
pub mod geometry;
pub mod direction;
pub mod keys;
pub mod text;
pub mod csv;
pub mod level;
pub mod sprite;
pub mod ui;
pub mod camera;
pub mod animated;
pub mod sounds;
pub mod rounding;
pub mod player;
pub mod menu;
pub mod game;
