use space_game::direction::Dir4;
use space_game::geometry::{PixelRect, Point2, Size2, TilePoint, TileSize};
use space_game::level::{is_valid_collision_csv, CollisionType, Level, LevelCollision, LevelData};

fn rect(x: i32, y: i32, w: i32, h: i32) -> PixelRect {
    PixelRect { origin: Point2 { x, y }, size: Size2 { width: w, height: h } }
}

#[test]
fn csv_cells_map_to_tile_types() {
    let c = LevelCollision::from_csv_text("1,2,3\n4,5,6\n");
    assert_eq!(c.dim(), TileSize { width: 3, height: 2 });
    assert_eq!(c.at(TilePoint { x: 0, y: 0 }), CollisionType::Empty);
    assert_eq!(c.at(TilePoint { x: 1, y: 0 }), CollisionType::Wall);
    assert_eq!(c.at(TilePoint { x: 2, y: 0 }), CollisionType::Bouncy { normal_dir: Dir4::Up });
    assert_eq!(c.at(TilePoint { x: 0, y: 1 }), CollisionType::Bouncy { normal_dir: Dir4::Right });
    assert_eq!(c.at(TilePoint { x: 1, y: 1 }), CollisionType::Bouncy { normal_dir: Dir4::Down });
    assert_eq!(c.at(TilePoint { x: 2, y: 1 }), CollisionType::Bouncy { normal_dir: Dir4::Left });
}

#[test]
fn csv_with_crlf_and_no_final_newline() {
    let c = LevelCollision::from_csv_text("1,2\r\n2,1");
    assert_eq!(c.dim(), TileSize { width: 2, height: 2 });
    assert_eq!(c.at(TilePoint { x: 1, y: 1 }), CollisionType::Empty);
    assert_eq!(c.at(TilePoint { x: 0, y: 1 }), CollisionType::Wall);
}

#[test]
fn csv_empty_fields_are_skipped() {
    let c = LevelCollision::from_csv_text("1,,2,\n,2,1\n");
    assert_eq!(c.dim(), TileSize { width: 2, height: 2 });
    assert_eq!(c.at(TilePoint { x: 1, y: 0 }), CollisionType::Wall);
    assert_eq!(c.at(TilePoint { x: 0, y: 1 }), CollisionType::Wall);
}

#[test]
fn csv_width_is_taken_from_first_line() {
    let c = LevelCollision::from_csv_text("1,1\n2,2,2\n");
    assert_eq!(c.dim(), TileSize { width: 2, height: 2 });
    assert_eq!(c.at(TilePoint { x: 0, y: 1 }), CollisionType::Wall);
}

#[test]
fn csv_of_one_empty_line_has_no_width() {
    let c = LevelCollision::from_csv_text("\n");
    assert_eq!(c.dim(), TileSize { width: 0, height: 1 });
}

#[test]
fn csv_validity() {
    assert!(is_valid_collision_csv("1,2\n3,4\n"));
    assert!(is_valid_collision_csv("1"));
    assert!(!is_valid_collision_csv(""));
    assert!(is_valid_collision_csv("\n"));
    assert!(!is_valid_collision_csv("1,7\n"));
    assert!(!is_valid_collision_csv("1, 2\n"));
    assert!(!is_valid_collision_csv("12\n"));
    assert!(is_valid_collision_csv("\n1\n"));
}

#[test]
fn touching_reports_each_type_once_in_scan_order() {
    // 3 x 3 map: column 1 is all walls, the rest empty except a bumper.
    let c = LevelCollision::from_csv_text("1,2,1\n1,2,3\n1,2,1\n");
    // An 8 x 8 square at (4, 4) overlaps tiles (0..2) x (0..2).
    let t = c.touching(rect(4, 4, 8, 8));
    assert_eq!(t, vec![CollisionType::Empty, CollisionType::Wall]);
    // A square on tile (2, 1) exactly.
    let t = c.touching(rect(16, 8, 8, 8));
    assert_eq!(t, vec![CollisionType::Bouncy { normal_dir: Dir4::Up }]);
    // Overlapping columns 1 and 2, rows 0 and 1.
    let t = c.touching(rect(12, 4, 8, 8));
    assert_eq!(t, vec![CollisionType::Wall, CollisionType::Empty, CollisionType::Bouncy { normal_dir: Dir4::Up }]);
}

#[test]
fn touching_clamps_negative_coordinates() {
    let c = LevelCollision::from_csv_text("2,1\n1,1\n");
    let t = c.touching(rect(-20, -20, 8, 8));
    assert!(t.is_empty());
    let t = c.touching(rect(-4, -4, 8, 8));
    assert_eq!(t, vec![CollisionType::Wall]);
}

#[test]
fn covers_checks_the_last_tile() {
    let c = LevelCollision::from_csv_text("1,1\n1,1\n");
    assert!(c.covers_exec(rect(0, 0, 8, 8)));
    assert!(c.covers_exec(rect(8, 8, 8, 8)));
    assert!(!c.covers_exec(rect(12, 12, 8, 8)));
}

#[test]
fn level_from_file_parts_keeps_positions() {
    let c = LevelCollision::from_csv_text("1,1\n1,1\n");
    let data = LevelData { player_init: (1, 2), portal: (5, 6), black_holes: vec![(3, 4), (7, 8)] };
    let level = Level::from_file_parts("tiles", c, data);
    assert_eq!(level.tiles, "tiles");
    assert_eq!(level.spawn_player_pos, TilePoint { x: 1, y: 2 });
    assert_eq!(level.spawn_portal_pos, TilePoint { x: 5, y: 6 });
    assert_eq!(level.spawn_black_holes_pos, vec![TilePoint { x: 3, y: 4 }, TilePoint { x: 7, y: 8 }]);
    assert_eq!(level.collision.dim(), TileSize { width: 2, height: 2 });
}
