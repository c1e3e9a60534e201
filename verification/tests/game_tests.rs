use space_game::game::{Game, GameSave, KeyOutcome, PlayerExistence, PlayingState, SceneItem, State};
use space_game::geometry::{Point2, TilePoint};
use space_game::keys::Key;
use space_game::level::{Level, LevelCollision, LevelData};
use space_game::sounds::{AudioCommand, Music, Sfx};

/// A 20 x 20 level, empty but for a wall column at x = 15, with the ship at
/// `spawn`, the portal at `portal` and the given holes.
fn level(spawn: (u8, u8), portal: (u8, u8), holes: Vec<(u8, u8)>) -> Level<()> {
    let mut text = String::new();
    for _ in 0..20 {
        for x in 0..20 {
            text.push_str(if x == 15 { "2," } else { "1," });
        }
        text.push('\n');
    }
    let collision = LevelCollision::from_csv_text(&text);
    Level::from_file_parts((), collision, LevelData { player_init: spawn, portal, black_holes: holes })
}

fn save(progress: Vec<u64>, num_subframes: u8) -> GameSave {
    GameSave { sfx_muted: false, music_muted: false, pixel_size: 6, num_subframes, progress }
}

fn tick(game: &mut Game, keys: &[Key], levels: &[Level<()>]) {
    assert!(game.tick_fits_exec(keys, levels));
    game.update(keys, levels);
}

fn key(game: &mut Game, k: Key, levels: &[Level<()>]) -> KeyOutcome {
    assert!(game.key_down_fits(k, false, false, levels));
    game.key_down(k, false, false, levels)
}

fn playing(game: &Game) -> &PlayingState {
    match &game.state {
        State::Playing { state } => state,
        _ => panic!("not playing"),
    }
}

#[test]
fn default_save() {
    let s = GameSave::nonexistent_default();
    assert!(!s.sfx_muted);
    assert!(!s.music_muted);
    assert_eq!(s.pixel_size, 6);
    assert_eq!(s.num_subframes, 8);
    assert!(s.progress.is_empty());
}

#[test]
fn new_game_starts_at_title_and_saves_its_settings() {
    let g = Game::new(&GameSave { sfx_muted: true, music_muted: false, pixel_size: 3, num_subframes: 5, progress: vec![9, 8] });
    assert!(matches!(g.state, State::TitleMenu { .. }));
    let s = g.to_save();
    assert!(s.sfx_muted);
    assert!(!s.music_muted);
    assert_eq!(s.pixel_size, 3);
    assert_eq!(s.num_subframes, 5);
    assert_eq!(s.progress, vec![9, 8]);
}

#[test]
fn play_starts_the_first_level_when_nothing_is_cleared() {
    let levels = vec![level((2, 2), (10, 10), vec![])];
    let mut g = Game::new(&save(vec![], 2));
    let _ = g.sounds.take_commands();
    let out = key(&mut g, Key::Enter, &levels);
    assert_eq!(out, KeyOutcome { quit: false, resize: false });
    let st = playing(&g);
    assert_eq!(st.level_id, 0);
    assert!(matches!(st.maybe_player, PlayerExistence::Wait { wait_counter: 4 }));
    assert_eq!(
        g.sounds.take_commands(),
        vec![
            AudioCommand::PlaySfx { sfx: Sfx::MenuClick },
            AudioCommand::StopMusic { music: Music::Menu },
            AudioCommand::PlayMusic { music: Music::Game },
        ]
    );
}

#[test]
fn play_goes_to_level_select_once_a_level_is_cleared() {
    let levels = vec![level((2, 2), (10, 10), vec![])];
    let mut g = Game::new(&save(vec![40], 2));
    key(&mut g, Key::Enter, &levels);
    match &g.state {
        State::LevelSelectMenu { menu } => assert_eq!(menu.selection(), 1),
        _ => panic!("expected the level select menu"),
    }
    key(&mut g, Key::ArrowUp, &levels);
    key(&mut g, Key::Enter, &levels);
    assert_eq!(playing(&g).level_id, 0);
}

#[test]
fn ship_appears_after_the_wait_and_its_timer_counts_full_frames() {
    let levels = vec![level((2, 2), (10, 10), vec![])];
    let mut g = Game::new(&save(vec![], 2));
    key(&mut g, Key::Enter, &levels);
    for _ in 0..8 {
        tick(&mut g, &[], &levels);
        assert!(matches!(playing(&g).maybe_player, PlayerExistence::Wait { .. }));
    }
    tick(&mut g, &[], &levels);
    match &playing(&g).maybe_player {
        PlayerExistence::Exists { player, timer } => {
            assert_eq!(*timer, 0);
            assert_eq!(player.pos(), Point2 { x: 16, y: 16 });
        },
        _ => panic!("the ship should have appeared"),
    }
    assert_eq!(playing(&g).shown_time(), Some(0));
    tick(&mut g, &[], &levels);
    assert_eq!(playing(&g).shown_time(), Some(1));
    assert_eq!(playing(&g).subframe_counter, 0);
}

#[test]
fn reaching_the_portal_records_the_time_and_returns_to_level_select() {
    let levels = vec![level((6, 2), (10, 2), vec![])];
    let mut g = Game::new(&save(vec![], 1));
    key(&mut g, Key::Enter, &levels);
    for _ in 0..5 {
        tick(&mut g, &[], &levels);
    }
    assert!(matches!(playing(&g).maybe_player, PlayerExistence::Exists { .. }));
    let _ = g.sounds.take_commands();
    let mut frames = 0;
    while !matches!(playing(&g).maybe_player, PlayerExistence::LevelEnded { .. }) {
        tick(&mut g, &[Key::ArrowRight], &levels);
        frames += 1;
        assert!(frames < 20);
    }
    let t = match playing(&g).maybe_player {
        PlayerExistence::LevelEnded { final_time } => final_time,
        _ => unreachable!(),
    };
    assert_eq!(g.progress, vec![t]);
    assert!(g.sounds.take_commands().contains(&AudioCommand::PlaySfx { sfx: Sfx::LevelClear }));
    // The collapse takes two full frames; at the third the level select menu shows.
    tick(&mut g, &[], &levels);
    tick(&mut g, &[], &levels);
    assert!(matches!(g.state, State::Playing { .. }));
    tick(&mut g, &[], &levels);
    match &g.state {
        State::LevelSelectMenu { menu } => assert_eq!(menu.selection(), 1),
        _ => panic!("expected the level select menu"),
    }
    assert_eq!(g.sounds.take_commands(), vec![AudioCommand::StopMusic { music: Music::Game }, AudioCommand::PlayMusic { music: Music::Menu }]);
}

#[test]
fn a_better_time_replaces_the_best_and_a_worse_one_does_not() {
    let levels = vec![level((6, 2), (10, 2), vec![])];
    for (before, expected) in [(100u64, None), (1u64, Some(1u64))] {
        let mut g = Game::new(&save(vec![before], 1));
        key(&mut g, Key::Enter, &levels);
        key(&mut g, Key::ArrowUp, &levels);
        key(&mut g, Key::Enter, &levels);
        for _ in 0..5 {
            tick(&mut g, &[], &levels);
        }
        while !matches!(playing(&g).maybe_player, PlayerExistence::LevelEnded { .. }) {
            tick(&mut g, &[Key::ArrowRight], &levels);
        }
        let t = match playing(&g).maybe_player {
            PlayerExistence::LevelEnded { final_time } => final_time,
            _ => unreachable!(),
        };
        assert_eq!(g.progress, vec![expected.unwrap_or(t)]);
    }
}

#[test]
fn hitting_a_wall_explodes_and_respawns() {
    let levels = vec![level((12, 2), (2, 10), vec![])];
    let mut g = Game::new(&save(vec![], 1));
    key(&mut g, Key::Enter, &levels);
    for _ in 0..5 {
        tick(&mut g, &[], &levels);
    }
    let _ = g.sounds.take_commands();
    let mut frames = 0;
    while !matches!(playing(&g).maybe_player, PlayerExistence::Wait { .. }) {
        tick(&mut g, &[Key::ArrowRight], &levels);
        frames += 1;
        assert!(frames < 20);
    }
    assert!(playing(&g).maybe_explosion.is_some());
    assert!(g.sounds.take_commands().contains(&AudioCommand::PlaySfx { sfx: Sfx::Explosion }));
    assert_eq!(playing(&g).shown_time(), None);
    for _ in 0..4 {
        tick(&mut g, &[], &levels);
    }
    assert!(playing(&g).maybe_explosion.is_none());
    tick(&mut g, &[], &levels);
    // With one subframe per frame, the frame in which the ship appears already counts.
    assert!(matches!(playing(&g).maybe_player, PlayerExistence::Exists { timer: 1, .. }));
}

#[test]
fn black_hole_catches_the_ship() {
    let levels = vec![level((5, 5), (2, 15), vec![(5, 7)])];
    let mut g = Game::new(&save(vec![], 1));
    key(&mut g, Key::Enter, &levels);
    let mut ticks = 0;
    while !matches!(playing(&g).maybe_player, PlayerExistence::Exists { .. }) {
        tick(&mut g, &[], &levels);
        ticks += 1;
    }
    assert_eq!(ticks, 5);
    let mut frames = 0;
    while !matches!(playing(&g).maybe_player, PlayerExistence::Wait { .. }) {
        tick(&mut g, &[], &levels);
        frames += 1;
        assert!(frames < 20);
    }
    assert!(playing(&g).maybe_explosion.is_some());
}

#[test]
fn restart_and_escape() {
    let levels = vec![level((2, 2), (10, 10), vec![(5, 5)])];
    let mut g = Game::new(&save(vec![], 1));
    key(&mut g, Key::Enter, &levels);
    for _ in 0..7 {
        tick(&mut g, &[Key::ArrowDown], &levels);
    }
    assert!(matches!(playing(&g).maybe_player, PlayerExistence::Exists { .. }));
    key(&mut g, Key::KeyR, &levels);
    assert!(matches!(playing(&g).maybe_player, PlayerExistence::Wait { wait_counter: 4 }));
    assert_eq!(playing(&g).black_holes.len(), 1);
    let _ = g.sounds.take_commands();
    key(&mut g, Key::Escape, &levels);
    assert!(matches!(g.state, State::TitleMenu { .. }));
    assert_eq!(g.sounds.take_commands(), vec![AudioCommand::StopMusic { music: Music::Game }, AudioCommand::PlayMusic { music: Music::Menu }]);
}

#[test]
fn alt_shift_delete_resets_and_quits() {
    let levels = vec![level((2, 2), (10, 10), vec![])];
    let mut g = Game::new(&GameSave { sfx_muted: true, music_muted: true, pixel_size: 3, num_subframes: 2, progress: vec![5] });
    assert!(g.key_down_fits(Key::Delete, true, true, &levels));
    let out = g.key_down(Key::Delete, true, true, &levels);
    assert_eq!(out, KeyOutcome { quit: true, resize: false });
    let s = g.to_save();
    assert!(!s.sfx_muted && !s.music_muted);
    assert_eq!((s.pixel_size, s.num_subframes), (6, 8));
    assert!(s.progress.is_empty());
    // Delete alone does nothing.
    let mut g = Game::new(&save(vec![5], 2));
    let out = g.key_down(Key::Delete, false, true, &levels);
    assert_eq!(out, KeyOutcome { quit: false, resize: false });
    assert_eq!(g.progress, vec![5]);
}

#[test]
fn menu_keys_report_quit_and_resize() {
    let levels = vec![level((2, 2), (10, 10), vec![])];
    let mut g = Game::new(&save(vec![], 2));
    key(&mut g, Key::ArrowDown, &levels);
    key(&mut g, Key::ArrowDown, &levels);
    assert_eq!(key(&mut g, Key::ArrowRight, &levels), KeyOutcome { quit: false, resize: true });
    assert_eq!(g.pixel_size, 7);
    key(&mut g, Key::ArrowDown, &levels);
    key(&mut g, Key::ArrowDown, &levels);
    assert_eq!(key(&mut g, Key::Enter, &levels), KeyOutcome { quit: true, resize: false });
}

#[test]
fn ticks_outside_a_level_change_nothing() {
    let levels = vec![level((2, 2), (10, 10), vec![])];
    let mut g = Game::new(&save(vec![], 0));
    assert!(g.tick_fits_exec(&[], &levels));
    g.update(&[], &levels);
    assert!(matches!(g.state, State::TitleMenu { .. }));
    key(&mut g, Key::Enter, &levels);
    // No subframes: a level cannot be stepped.
    assert!(!g.tick_fits_exec(&[], &levels));
}

#[test]
fn starting_a_level_places_portal_and_holes() {
    let levels = vec![level((2, 2), (10, 10), vec![(5, 5), (7, 8)])];
    let st = PlayingState::new(0, &levels);
    assert_eq!(st.portal.rect().origin, TilePoint { x: 9, y: 9 });
    assert_eq!(st.black_holes.len(), 2);
    assert_eq!(st.black_holes[1].rect().origin, TilePoint { x: 6, y: 7 });
    assert_eq!(st.subframe_counter, 0);
    // The level is narrower than the screen: the camera takes its far edge.
    assert_eq!(st.camera, Point2 { x: 160 - 256, y: 0 });
}

#[test]
fn key_checks_refuse_what_would_overflow() {
    let levels = vec![level((2, 2), (10, 10), vec![])];
    let mut g = Game::new(&GameSave { sfx_muted: false, music_muted: false, pixel_size: 255, num_subframes: 0, progress: vec![] });
    key(&mut g, Key::ArrowDown, &levels);
    key(&mut g, Key::ArrowDown, &levels);
    // Pixel size 255 cannot be turned up.
    assert!(!g.key_down_fits(Key::ArrowRight, false, false, &levels));
    assert!(g.key_down_fits(Key::ArrowLeft, false, false, &levels));
    key(&mut g, Key::ArrowDown, &levels);
    // Subframes 0 cannot be turned down.
    assert!(!g.key_down_fits(Key::KeyA, false, false, &levels));
    // Starting a game needs a level.
    let mut g = Game::new(&save(vec![], 2));
    let none: Vec<Level<()>> = vec![];
    assert!(!g.key_down_fits(Key::Enter, false, false, &none));
    assert!(g.key_down_fits(Key::Enter, false, false, &levels));
    let _ = g.key_down(Key::Enter, false, false, &levels);
}

#[test]
fn scene_lists_what_a_level_shows_in_order() {
    let levels = vec![level((2, 2), (10, 10), vec![(5, 5), (7, 8)])];
    let mut g = Game::new(&save(vec![], 1));
    key(&mut g, Key::Enter, &levels);
    // While the ship waits: picture, portal, the two holes; no time.
    let st = playing(&g);
    assert!(st.scene_fits_exec());
    let scene = st.scene();
    assert_eq!(scene.len(), 4);
    assert!(matches!(scene[0], SceneItem::LevelTiles { dest: Point2 { x: 96, y: 0 } }));
    assert!(matches!(scene[1], SceneItem::Portal { .. }));
    assert!(matches!(scene[2], SceneItem::BlackHole { .. }));
    assert!(matches!(scene[3], SceneItem::BlackHole { .. }));
    for _ in 0..6 {
        tick(&mut g, &[Key::ArrowDown], &levels);
    }
    // Flying with the engine on: the ship and its flame come right after the picture, the time last.
    let scene = playing(&g).scene();
    assert_eq!(scene.len(), 7);
    assert!(matches!(scene[1], SceneItem::Ship { .. }));
    assert!(matches!(scene[2], SceneItem::Flame { .. }));
    assert!(matches!(scene[3], SceneItem::Portal { .. }));
    assert!(matches!(scene[6], SceneItem::Time { .. }));
}

#[test]
fn repeated_or_codeless_keys_are_ignored() {
    let levels = vec![level((2, 2), (10, 10), vec![])];
    let mut g = Game::new(&save(vec![], 2));
    let _ = g.sounds.take_commands();
    // A repeat of Enter, and a key without a key code: nothing happens.
    assert!(g.key_event_fits(Some(Key::Enter), true, false, false, &levels));
    let out = g.key_event(Some(Key::Enter), true, false, false, &levels);
    assert_eq!(out, KeyOutcome { quit: false, resize: false });
    assert!(g.key_event_fits(None, false, false, false, &levels));
    let out = g.key_event(None, false, false, false, &levels);
    assert_eq!(out, KeyOutcome { quit: false, resize: false });
    assert!(matches!(g.state, State::TitleMenu { .. }));
    assert!(g.sounds.take_commands().is_empty());
    // A fresh press of Enter starts the first level.
    assert!(g.key_event_fits(Some(Key::Enter), false, false, false, &levels));
    g.key_event(Some(Key::Enter), false, false, false, &levels);
    assert_eq!(playing(&g).level_id, 0);
}
