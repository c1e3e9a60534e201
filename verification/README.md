# space_game

A small top-down space game: steer a ship through tile levels, bounce off
bumpers, avoid walls and black holes, and reach the portal as fast as possible.

- `src/` is the game's logic, verified with Verus: the collision files and maps
  (`csv`, `level`), the ship's flight (`player`), the animated objects
  (`animated`), the camera, the menus, the sound state and the game's state
  machine (`game`). Drawing and audio are described as plain values (sprites,
  letter-grid steps, audio commands) for the host to carry out.
- `app/` is the host program built on ggez: it loads the resources, turns key
  presses into the library's keys, steps the game, plays the audio commands and
  draws what the library describes.
- `tests/` exercises the library on concrete levels and inputs.

`LevelCollision::touching` answers with a `Vec` that holds each tile type
once, in the order a column-by-column scan first meets them, where a hash set
would have done. vstd specifies the contents of a `HashSet` only for keys
whose hashing and equality it knows; for an enum of this crate with derived
`Hash` and `Eq` it states nothing about what the set holds, so the set's
meaning could not be proved. The `Vec` carries that meaning instead: no type
occurs twice, and a type occurs exactly when some tile under the rectangle has
it (proved in `level.rs`).

Within a full frame the ship moves `vel / ns` pixels per subframe, and the
remainder is spread as single-pixel steps over the frame. Where those steps
fall is decided in single-precision floating point: the spacing `ns / |r|`
and each multiple `s * spacing` are rounded to `f32`, and the whole part of
the product names the subframe. `src/rounding.rs` states that rounding
exactly with integers (24 significant bits, ties to even), and
`player::slot` uses it, so the schedule is the one the float computation
gives, including where it differs from exact arithmetic (39 subframes with a
remainder of 33, for instance). For some splits the rounded schedule marks
more or fewer subframes than there are steps (13 subframes, remainder 11);
the flight refuses those (`update_fits`), as the game stops there too. With
up to twelve subframes, the range the menu offers, the rounded slots are the
exact ones and every step lands (`law_small_frames_always_land`).
