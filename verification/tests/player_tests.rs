use space_game::animated::BlackHole;
use space_game::direction::Dir8;
use space_game::geometry::{Point2, TilePoint, TileRect, TileSize, Vector2};
use space_game::keys::Key;
use space_game::level::LevelCollision;
use space_game::player::Player;
use space_game::sounds::{AllSounds, AudioCommand, Sfx};

fn open_map() -> LevelCollision {
    // 20 x 20 empty tiles.
    let row = "1,".repeat(20) + "\n";
    LevelCollision::from_csv_text(&row.repeat(20))
}

fn step(p: &mut Player, sounds: &mut AllSounds, sub: u8, ns: u8, keys: &[Key], map: &LevelCollision, holes: &[BlackHole]) {
    assert!(p.update_fits_exec(sub, ns, keys, map, holes));
    p.update(sounds, sub, ns, keys, map, holes);
}

#[test]
fn new_player_rests_facing_up() {
    let p = Player::new(TilePoint { x: 3, y: 4 });
    assert_eq!(p.pos(), Point2 { x: 24, y: 32 });
    assert_eq!(p.vel(), Vector2 { x: 0, y: 0 });
    assert_eq!(p.dir(), Dir8::Up);
    assert!(!p.fire());
}

#[test]
fn holding_right_accelerates_once_per_full_frame() {
    let map = open_map();
    let mut s = AllSounds::new(true, true);
    let mut p = Player::new(TilePoint { x: 5, y: 5 });
    let keys = [Key::ArrowRight];
    step(&mut p, &mut s, 0, 4, &keys, &map, &[]);
    assert_eq!(p.vel(), Vector2 { x: 2, y: 0 });
    assert_eq!(p.dir(), Dir8::Right);
    assert!(p.fire());
    step(&mut p, &mut s, 1, 4, &keys, &map, &[]);
    assert_eq!(p.vel(), Vector2 { x: 2, y: 0 });
    let keys = [Key::KeyD, Key::KeyS];
    step(&mut p, &mut s, 0, 4, &keys, &map, &[]);
    assert_eq!(p.vel(), Vector2 { x: 4, y: 2 });
    assert_eq!(p.dir(), Dir8::DownRight);
}

#[test]
fn opposite_keys_cancel_and_speed_decays() {
    let map = open_map();
    let mut s = AllSounds::new(true, true);
    let mut p = Player::new(TilePoint { x: 5, y: 5 });
    step(&mut p, &mut s, 0, 1, &[Key::ArrowUp], &map, &[]);
    assert_eq!(p.vel(), Vector2 { x: 0, y: -2 });
    step(&mut p, &mut s, 0, 1, &[Key::ArrowUp, Key::KeyS], &map, &[]);
    assert_eq!(p.vel(), Vector2 { x: 0, y: -1 });
    assert!(!p.fire());
    assert_eq!(p.dir(), Dir8::Up);
    step(&mut p, &mut s, 0, 1, &[], &map, &[]);
    assert_eq!(p.vel(), Vector2 { x: 0, y: 0 });
}

#[test]
fn a_full_frame_moves_by_the_velocity() {
    let map = open_map();
    let mut s = AllSounds::new(true, true);
    for ns in 1..=12u8 {
        let mut p = Player::new(TilePoint { x: 8, y: 8 });
        // Reach velocity (6, -4) over three full frames.
        for _ in 0..3 {
            for sub in 0..ns {
                let keys: &[Key] = if sub == 0 { &[Key::ArrowRight, Key::ArrowUp] } else { &[] };
                step(&mut p, &mut s, sub, ns, keys, &map, &[]);
            }
        }
        let _ = s.take_commands();
        // The keys were held only at the first subframes; velocity is (6, -6).
        assert_eq!(p.vel(), Vector2 { x: 6, y: -6 });
        let start = p.pos();
        // One more full frame, holding right at its first subframe only: velocity (8, -5).
        for sub in 0..ns {
            let keys: &[Key] = if sub == 0 { &[Key::ArrowRight] } else { &[] };
            step(&mut p, &mut s, sub, ns, keys, &map, &[]);
        }
        assert_eq!(p.vel(), Vector2 { x: 8, y: -5 });
        assert_eq!(p.pos(), Point2 { x: start.x + 8, y: start.y - 5 }, "ns = {}", ns);
    }
}

#[test]
fn remainder_steps_are_spread_over_the_frame() {
    let map = open_map();
    let mut s = AllSounds::new(true, true);
    let mut p = Player::new(TilePoint { x: 8, y: 8 });
    // Velocity 2 with 8 subframes: steps at subframes 0 and 4.
    step(&mut p, &mut s, 0, 8, &[Key::ArrowRight], &map, &[]);
    let mut xs = vec![p.pos().x];
    for sub in 1..8 {
        step(&mut p, &mut s, sub, 8, &[], &map, &[]);
        xs.push(p.pos().x);
    }
    assert_eq!(xs, vec![65, 65, 65, 65, 66, 66, 66, 66]);
}

#[test]
fn bumper_reflects_velocity_and_plays_bounce() {
    // Bumper facing up (3) at tile (5, 6); the ship above it falling down.
    let mut text = String::new();
    for y in 0..10 {
        for x in 0..10 {
            text.push_str(if x == 5 && y == 6 { "3," } else { "1," });
        }
        text.push('\n');
    }
    let map = LevelCollision::from_csv_text(&text);
    let mut s = AllSounds::new(true, false);
    let mut p = Player::new(TilePoint { x: 5, y: 5 });
    step(&mut p, &mut s, 0, 1, &[Key::ArrowDown], &map, &[]);
    assert_eq!(p.vel(), Vector2 { x: 0, y: 2 });
    assert_eq!(p.pos(), Point2 { x: 40, y: 42 });
    let _ = s.take_commands();
    // Now touching the bumper: the vertical velocity turns upwards, the ship faces up.
    step(&mut p, &mut s, 1, 2, &[], &map, &[]);
    assert_eq!(p.vel(), Vector2 { x: 0, y: -2 });
    assert_eq!(p.dir(), Dir8::Up);
    assert_eq!(s.take_commands(), vec![AudioCommand::PlaySfx { sfx: Sfx::Bounce }]);
}

#[test]
fn black_holes_pull_and_sound() {
    let map = open_map();
    let mut s = AllSounds::new(true, false);
    let mut p = Player::new(TilePoint { x: 5, y: 10 });
    let holes = [BlackHole::new(TilePoint { x: 10, y: 10 })];
    // Ship centre (44, 84), hole centre (84, 84): distance 40, strength 3, pulled right.
    step(&mut p, &mut s, 0, 1, &[], &map, &holes);
    assert_eq!(p.vel(), Vector2 { x: 3, y: 0 });
    assert_eq!(s.take_commands(), vec![AudioCommand::BlackHolePull { pull: Vector2 { x: 3, y: 0 } }]);
    // No pull outside the first subframe.
    step(&mut p, &mut s, 1, 2, &[], &map, &holes);
    assert_eq!(p.vel(), Vector2 { x: 3, y: 0 });
    assert!(s.take_commands().is_empty());
}

#[test]
fn update_fits_rejects_a_ship_outside_the_map() {
    let map = open_map();
    let p = Player::new(TilePoint { x: 30, y: 30 });
    assert!(!p.update_fits_exec(0, 1, &[], &map, &[]));
    let p = Player::new(TilePoint { x: 3, y: 3 });
    assert!(!p.update_fits_exec(0, 0, &[], &map, &[]));
    assert!(!p.update_fits_exec(2, 2, &[], &map, &[]));
    assert!(p.update_fits_exec(1, 2, &[], &map, &[]));
}

#[test]
fn peek_update_matches_update() {
    let map = open_map();
    let mut s = AllSounds::new(true, true);
    let mut p = Player::new(TilePoint { x: 5, y: 5 });
    let q = p.peek_update(0, 3, &[Key::KeyA], &map, &[]);
    p.update(&mut s, 0, 3, &[Key::KeyA], &map, &[]);
    assert_eq!(q.pos(), p.pos());
    assert_eq!(q.vel(), p.vel());
    assert_eq!(q.dir(), p.dir());
}

#[test]
fn ship_sprites_follow_direction() {
    let map = open_map();
    let mut s = AllSounds::new(true, true);
    let mut p = Player::new(TilePoint { x: 5, y: 5 });
    let sprite = p.sprite(Point2 { x: 10, y: 0 });
    assert_eq!(sprite.dest, Point2 { x: 30, y: 40 });
    assert_eq!(sprite.atlas, TileRect { origin: TilePoint { x: 1, y: 0 }, size: TileSize { width: 1, height: 1 } });
    assert!(p.flame_sprite(Point2 { x: 0, y: 0 }).is_none());
    p.update(&mut s, 0, 8, &[Key::ArrowLeft], &map, &[]);
    assert_eq!(p.sprite(Point2 { x: 0, y: 0 }).atlas.origin, TilePoint { x: 0, y: 1 });
    let f = p.flame_sprite(Point2 { x: 0, y: 0 }).unwrap();
    assert_eq!(f.sprite.atlas, TileRect { origin: TilePoint { x: 3, y: 0 }, size: TileSize { width: 1, height: 2 } });
    assert_eq!(f.quarter_turns, 3);
    assert_eq!(f.anchor, TilePoint { x: 0, y: 0 });
    assert_eq!(f.pivot, Point2 { x: 4, y: 4 });
    p.update(&mut s, 1, 8, &[Key::ArrowDown, Key::ArrowRight], &map, &[]);
    assert_eq!(p.sprite(Point2 { x: 0, y: 0 }).atlas.origin, TilePoint { x: 2, y: 2 });
    let f = p.flame_sprite(Point2 { x: 0, y: 0 }).unwrap();
    assert_eq!(f.sprite.atlas, TileRect { origin: TilePoint { x: 4, y: 0 }, size: TileSize { width: 2, height: 2 } });
    assert_eq!(f.quarter_turns, 1);
    assert_eq!(f.anchor, TilePoint { x: 1, y: 0 });
    assert_eq!(f.pivot, Point2 { x: 12, y: 4 });
}

fn long_corridor() -> LevelCollision {
    // 100 x 4 empty tiles.
    let row = "1,".repeat(100) + "\n";
    LevelCollision::from_csv_text(&row.repeat(4))
}

#[test]
fn remainder_steps_follow_the_single_precision_spacing() {
    // 39 subframes, velocity 33: the spacing 39 / 33 and its multiples are
    // rounded to single precision, which puts the steps of s = 11 and s = 22
    // on subframes 12 and 25 (exact arithmetic would give 13 and 26).
    let map = long_corridor();
    let mut s = AllSounds::new(true, true);
    let mut p = Player::new(TilePoint { x: 2, y: 1 });
    for _frame in 0..17 {
        step(&mut p, &mut s, 0, 39, &[Key::ArrowRight], &map, &[]);
        for sub in 1..39 {
            step(&mut p, &mut s, sub, 39, &[], &map, &[]);
        }
    }
    assert_eq!(p.vel(), Vector2 { x: 34, y: 0 });
    let mut deltas = Vec::new();
    for sub in 0..39 {
        let before = p.pos().x;
        step(&mut p, &mut s, sub, 39, &[], &map, &[]);
        deltas.push(p.pos().x - before);
    }
    assert_eq!(p.vel(), Vector2 { x: 33, y: 0 });
    assert_eq!(deltas.iter().sum::<i32>(), 33);
    let idle: Vec<usize> = (0..39).filter(|k| deltas[*k] == 0).collect();
    assert_eq!(idle, vec![6, 13, 19, 26, 32, 38]);
}

#[test]
fn a_schedule_whose_steps_collide_cannot_be_run() {
    // 13 subframes, velocity 11: the rounded slots mark twelve subframes, one
    // more than the eleven steps; the update is refused.
    let map = long_corridor();
    let mut s = AllSounds::new(true, true);
    let mut p = Player::new(TilePoint { x: 2, y: 1 });
    for _frame in 0..6 {
        step(&mut p, &mut s, 0, 13, &[Key::ArrowRight], &map, &[]);
        for sub in 1..13 {
            step(&mut p, &mut s, sub, 13, &[], &map, &[]);
        }
    }
    assert_eq!(p.vel(), Vector2 { x: 12, y: 0 });
    assert!(!p.update_fits_exec(0, 13, &[], &map, &[]));
    // Holding right instead gives velocity 14, remainder 1: that runs.
    assert!(p.update_fits_exec(0, 13, &[Key::ArrowRight], &map, &[]));
}
