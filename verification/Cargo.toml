[package]
name = "space_game"
version = "0.1.0"
edition = "2021"
publish = false

[dependencies]
generic_discrete_2d_rotations = "*"
ggez = "*"
ggez_pixel_canvas = "*"
glamour = "*"
imageable_tile_grid = "*"
ron = "*"
serde = { version = "*", features = ["derive"] }
