use space_game::animated::{BlackHole, Explosion, Portal, PortalAnimation, PortalImage};
use space_game::camera::{camera_fits_exec, find_camera_pos, initial, MAX_OFFSET};
use space_game::geometry::{PixelRect, Point2, Size2, TilePoint, TileRect, TileSize, Vector2};
use space_game::level::{Level, LevelCollision, LevelData};
use space_game::sprite::{level_dest, on_screen_fits_exec};

fn rect(x: i32, y: i32, w: i32, h: i32) -> PixelRect {
    PixelRect { origin: Point2 { x, y }, size: Size2 { width: w, height: h } }
}

#[test]
fn camera_centres_on_ship_and_leads_by_velocity() {
    let c = find_camera_pos(Point2 { x: 300, y: 100 }, Vector2 { x: 50, y: -3 }, TileSize { width: 64, height: 40 });
    assert_eq!(MAX_OFFSET, 32);
    assert_eq!(c, Point2 { x: 300 - 128 + 32, y: 100 - 72 - 3 });
}

#[test]
fn camera_stays_inside_the_level() {
    let dim = TileSize { width: 40, height: 20 };
    let c = find_camera_pos(Point2 { x: 10, y: 10 }, Vector2 { x: -100, y: -100 }, dim);
    assert_eq!(c, Point2 { x: 0, y: 0 });
    let c = find_camera_pos(Point2 { x: 1000, y: 1000 }, Vector2 { x: 0, y: 0 }, dim);
    assert_eq!(c, Point2 { x: 40 * 8 - 256, y: 20 * 8 - 144 });
}

#[test]
fn camera_on_a_level_smaller_than_the_screen_takes_the_far_edge() {
    let c = find_camera_pos(Point2 { x: 500, y: 500 }, Vector2 { x: 0, y: 0 }, TileSize { width: 10, height: 10 });
    assert_eq!(c, Point2 { x: 80 - 256, y: 80 - 144 });
}

#[test]
fn camera_fits_rejects_overflow() {
    assert!(camera_fits_exec(Point2 { x: 0, y: 0 }, Vector2 { x: 0, y: 0 }));
    assert!(!camera_fits_exec(Point2 { x: i32::MIN, y: 0 }, Vector2 { x: 0, y: 0 }));
}

#[test]
fn initial_camera_uses_spawn_point() {
    let c = LevelCollision::from_csv_text(&"1,".repeat(64).repeat(1));
    let level = Level::from_file_parts((), c, LevelData { player_init: (30, 0), portal: (5, 5), black_holes: vec![] });
    let cam = initial(&level);
    assert_eq!(cam, Point2 { x: 30 * 8 - 128, y: 8 - 144 });
}

#[test]
fn explosion_lasts_three_full_frames() {
    let mut e = Explosion::new(Point2 { x: 20, y: 30 });
    assert_eq!(e.pos(), Point2 { x: 12, y: 22 });
    let ns = 2;
    for k in 0..6 {
        assert!(!e.update(ns), "expired early at update {}", k);
    }
    assert_eq!(e.frame(), 3);
    assert!(e.update(ns));
}

#[test]
fn explosion_sprite_moves_through_the_image() {
    let mut e = Explosion::new(Point2 { x: 8, y: 8 });
    e.update(1);
    let s = e.sprite(Point2 { x: -5, y: 0 });
    assert_eq!(s.dest, Point2 { x: 5, y: 0 });
    assert_eq!(s.atlas, TileRect { origin: TilePoint { x: 3, y: 0 }, size: TileSize { width: 3, height: 3 } });
    assert_eq!(s.z, 3);
}

#[test]
fn portal_rect_grows_when_collapsing() {
    let mut p = Portal::new(TilePoint { x: 10, y: 10 });
    assert_eq!(p.rect(), TileRect { origin: TilePoint { x: 9, y: 9 }, size: TileSize { width: 3, height: 3 } });
    p.set_collapsing();
    assert_eq!(p.rect(), TileRect { origin: TilePoint { x: 8, y: 8 }, size: TileSize { width: 5, height: 5 } });
}

#[test]
fn portal_collision_is_within_two_tiles_of_centre() {
    let p = Portal::new(TilePoint { x: 10, y: 10 });
    // The portal's centre is pixel (84, 84); an 8 x 8 square's centre is its corner plus 4.
    assert!(p.collides_with(rect(80 + 15, 80, 8, 8)));
    assert!(!p.collides_with(rect(80 + 16, 80, 8, 8)));
    assert!(p.collides_with(rect(80 + 11, 80 + 11, 8, 8)));
    assert!(!p.collides_with(rect(80 + 12, 80 + 12, 8, 8)));
}

#[test]
fn portal_idle_turns_and_collapse_ends() {
    let mut p = Portal::new(TilePoint { x: 3, y: 3 });
    assert!(!p.update(1));
    assert_eq!(p.anim(), PortalAnimation::Idle { frame: 0 });
    for f in 1..4 {
        assert!(!p.update(0));
        assert_eq!(p.anim(), PortalAnimation::Idle { frame: f });
    }
    assert!(!p.update(0));
    assert_eq!(p.anim(), PortalAnimation::Idle { frame: 0 });
    p.set_collapsing();
    assert!(!p.update(0));
    assert_eq!(p.anim(), PortalAnimation::Collapsing { frame: 1 });
    assert!(!p.update(0));
    assert_eq!(p.anim(), PortalAnimation::DoneCollapsing);
    assert!(!p.update(3));
    assert!(p.update(0));
}

#[test]
fn portal_sprite_per_animation() {
    let mut p = Portal::new(TilePoint { x: 3, y: 3 });
    p.update(0);
    let (img, s) = p.sprite(Point2 { x: 0, y: 0 });
    assert_eq!(img, PortalImage::Idle);
    assert_eq!(s.atlas.origin, TilePoint { x: 3, y: 0 });
    assert_eq!(s.dest, Point2 { x: 16, y: 16 });
    p.set_collapsing();
    p.update(0);
    let (img, s) = p.sprite(Point2 { x: 0, y: 0 });
    assert_eq!(img, PortalImage::Collapse);
    assert_eq!(s.atlas.origin, TilePoint { x: 5, y: 0 });
    assert_eq!(s.atlas.size, TileSize { width: 5, height: 5 });
    p.update(0);
    let (_, s) = p.sprite(Point2 { x: 0, y: 0 });
    assert_eq!(s.atlas.origin, TilePoint { x: 10, y: 0 });
}

#[test]
fn black_hole_collision_is_within_a_tile_and_a_half() {
    let b = BlackHole::new(TilePoint { x: 10, y: 10 });
    assert_eq!(b.rect(), TileRect { origin: TilePoint { x: 9, y: 9 }, size: TileSize { width: 3, height: 3 } });
    assert!(b.collides_with(rect(80 + 11, 80, 8, 8)));
    assert!(!b.collides_with(rect(80 + 12, 80, 8, 8)));
}

#[test]
fn black_hole_pull_strength_falls_with_rounded_distance() {
    let b = BlackHole::new(TilePoint { x: 20, y: 20 });
    // Hole square: pixels 152..176, centre 164. Object 8 x 8 centred at corner + 4.
    // Distance 11 to the left: full strength, pulled right.
    assert_eq!(b.influence(rect(164 - 11 - 4, 160, 8, 8)), Vector2 { x: 6, y: 0 });
    // Distance 12: rounds to 12, one less.
    assert_eq!(b.influence(rect(164 - 12 - 4, 160, 8, 8)), Vector2 { x: 5, y: 0 });
    // Distance 30 to the right: 6 - 30 / 12 = 4, pulled left.
    assert_eq!(b.influence(rect(164 + 30 - 4, 160, 8, 8)), Vector2 { x: -4, y: 0 });
    // Distance 71: 6 - 5 = 1; distance 72 and beyond: nothing.
    assert_eq!(b.influence(rect(164 - 71 - 4, 160, 8, 8)), Vector2 { x: 1, y: 0 });
    assert_eq!(b.influence(rect(164 - 72 - 4, 160, 8, 8)), Vector2 { x: 0, y: 0 });
    // Diagonal 3-4-5 triangle scaled by 10: distance 50, strength 2, pulled down and right.
    assert_eq!(b.influence(rect(164 - 30 - 4, 164 - 40 - 4, 8, 8)), Vector2 { x: 2, y: 2 });
    // Inside the hole's square: no pull along either axis.
    assert_eq!(b.influence(rect(160, 160, 8, 8)), Vector2 { x: 0, y: 0 });
}

#[test]
fn black_hole_rounds_halves_up() {
    let b = BlackHole::new(TilePoint { x: 20, y: 20 });
    // Distance sqrt(11.5^2 + 0) cannot occur with 8 x 8 squares, but a 7-wide one has a half centre:
    // centre at corner + 3.5; corner 164 - 3.5 - 11.5 = 149 gives distance 11.5, which rounds to 12.
    assert_eq!(b.influence(rect(149, 160, 7, 8)), Vector2 { x: 5, y: 0 });
    // Distance 11.4 is impossible with integers; 11 stays 11 for a 6-wide square at corner 150.
    assert_eq!(b.influence(rect(150, 160, 6, 8)), Vector2 { x: 6, y: 0 });
}

#[test]
fn black_hole_frames_cycle() {
    let mut b = BlackHole::new(TilePoint { x: 1, y: 1 });
    for f in [1, 2, 3, 0, 1] {
        b.update(0);
        assert_eq!(b.frame(), f);
        b.update(5);
        assert_eq!(b.frame(), f);
    }
    let s = b.sprite(Point2 { x: 0, y: 0 });
    assert_eq!(s.atlas.origin, TilePoint { x: 3, y: 0 });
    assert_eq!(s.dest, Point2 { x: 0, y: 0 });
}

#[test]
fn screen_positions_are_checked_for_overflow() {
    assert!(on_screen_fits_exec(Point2 { x: 10, y: 10 }, Point2 { x: -5, y: 3 }));
    assert!(!on_screen_fits_exec(Point2 { x: i32::MAX, y: 0 }, Point2 { x: -1, y: 0 }));
    assert_eq!(level_dest(Point2 { x: 40, y: -8 }), Point2 { x: -40, y: 8 });
}
