use space_game::keys::Key;
use space_game::menu::{BigLetter, LSMUpdateResponse, LetterTile, LevelSelectMenu, TitleMenu, TitleMenuResponse};
use space_game::sounds::{AllSounds, AudioCommand, Music, Sfx};
use space_game::ui::GridOp;

fn write(s: &str) -> GridOp {
    GridOp::Write { text: s.to_string() }
}

#[test]
fn letter_tiles_and_their_atlas_positions() {
    assert_eq!(LetterTile::from_char('a'), LetterTile::Small { i: 0 });
    assert_eq!(LetterTile::from_char('z'), LetterTile::Small { i: 25 });
    assert_eq!(LetterTile::from_char('7'), LetterTile::Digit { n: 7 });
    assert_eq!(LetterTile::from_char('-'), LetterTile::Dot);
    assert_eq!(LetterTile::from_char('>'), LetterTile::RightArrow);
    assert_eq!(LetterTile::from_char('<'), LetterTile::LeftArrow);
    assert_eq!(LetterTile::from_char(':'), LetterTile::Colon);
    assert_eq!(LetterTile::from_char('.'), LetterTile::Point);
    assert_eq!(LetterTile::from_char(' '), LetterTile::Empty);
    assert_eq!(LetterTile::Small { i: 4 }.atlas_pos(), [4, 2]);
    assert_eq!(LetterTile::BigTop { i: 4 }.atlas_pos(), [4, 0]);
    assert_eq!(LetterTile::BigBottom { i: 4 }.atlas_pos(), [4, 1]);
    assert_eq!(LetterTile::Digit { n: 9 }.atlas_pos(), [9, 3]);
    assert_eq!(LetterTile::Dot.atlas_pos(), [10, 3]);
    assert_eq!(LetterTile::Empty.atlas_pos(), [15, 3]);
}

#[test]
fn big_letters_are_two_tiles_tall() {
    let b = BigLetter::from_char('c');
    assert_eq!(b, BigLetter::Letter { i: 2 });
    assert_eq!(b.dimensions(), [1, 2]);
    assert_eq!(b.sub(0, 0), LetterTile::BigTop { i: 2 });
    assert_eq!(b.sub(0, 1), LetterTile::BigBottom { i: 2 });
    let space = BigLetter::from_char(' ');
    assert_eq!(space.sub(0, 0), LetterTile::Empty);
    assert_eq!(space.sub(0, 1), LetterTile::Empty);
}

#[test]
fn title_menu_selection_wraps() {
    let mut m = TitleMenu::new();
    let mut s = AllSounds::new(true, false);
    let mut ps = 6u8;
    let mut ns = 8u8;
    assert_eq!(m.update(&mut s, Key::ArrowUp, &mut ps, &mut ns), TitleMenuResponse::Nothing);
    assert_eq!(m.selection(), 4);
    assert_eq!(m.update(&mut s, Key::KeyS, &mut ps, &mut ns), TitleMenuResponse::Nothing);
    assert_eq!(m.selection(), 0);
    assert_eq!(m.update(&mut s, Key::KeyW, &mut ps, &mut ns), TitleMenuResponse::Nothing);
    assert_eq!(m.update(&mut s, Key::Enter, &mut ps, &mut ns), TitleMenuResponse::Quit);
    assert_eq!(
        s.take_commands(),
        vec![AudioCommand::PlaySfx { sfx: Sfx::MenuNavigate }, AudioCommand::PlaySfx { sfx: Sfx::MenuNavigate }, AudioCommand::PlaySfx { sfx: Sfx::MenuNavigate }]
    );
    assert_eq!(m.update(&mut s, Key::ArrowDown, &mut ps, &mut ns), TitleMenuResponse::Nothing);
    assert_eq!(m.update(&mut s, Key::NumpadEnter, &mut ps, &mut ns), TitleMenuResponse::ToGame);
}

#[test]
fn sound_setting_steps_through_four_states() {
    let mut m = TitleMenu::new();
    let mut s = AllSounds::new(false, false);
    let mut ps = 6u8;
    let mut ns = 8u8;
    m.update(&mut s, Key::ArrowDown, &mut ps, &mut ns);
    let _ = s.take_commands();
    let mut seen = vec![];
    for _ in 0..4 {
        m.update(&mut s, Key::ArrowRight, &mut ps, &mut ns);
        seen.push((s.sfx_muted(), s.music_muted()));
    }
    assert_eq!(seen, vec![(false, true), (true, false), (true, true), (true, true)]);
    let mut back = vec![];
    for _ in 0..4 {
        m.update(&mut s, Key::KeyA, &mut ps, &mut ns);
        back.push((s.sfx_muted(), s.music_muted()));
    }
    assert_eq!(back, vec![(true, false), (false, true), (false, false), (false, false)]);
}

#[test]
fn sound_setting_issues_music_commands() {
    let mut m = TitleMenu::new();
    let mut s = AllSounds::new(false, false);
    let mut ps = 6u8;
    let mut ns = 8u8;
    assert_eq!(s.take_commands(), vec![AudioCommand::PlayMusic { music: Music::Menu }]);
    m.update(&mut s, Key::ArrowDown, &mut ps, &mut ns);
    let _ = s.take_commands();
    m.update(&mut s, Key::ArrowRight, &mut ps, &mut ns);
    assert_eq!(
        s.take_commands(),
        vec![AudioCommand::StopMusic { music: Music::Menu }, AudioCommand::PlaySfx { sfx: Sfx::MenuClick }]
    );
    m.update(&mut s, Key::ArrowRight, &mut ps, &mut ns);
    assert_eq!(s.take_commands(), vec![AudioCommand::PlayMusic { music: Music::Menu }]);
}

#[test]
fn pixel_size_and_subframes_stay_in_range() {
    let mut m = TitleMenu::new();
    let mut s = AllSounds::new(true, true);
    let mut ps = 2u8;
    let mut ns = 11u8;
    m.update(&mut s, Key::ArrowDown, &mut ps, &mut ns);
    m.update(&mut s, Key::ArrowDown, &mut ps, &mut ns);
    assert_eq!(m.update(&mut s, Key::ArrowLeft, &mut ps, &mut ns), TitleMenuResponse::Resize);
    assert_eq!(ps, 1);
    assert_eq!(m.update(&mut s, Key::ArrowLeft, &mut ps, &mut ns), TitleMenuResponse::Nothing);
    assert_eq!(ps, 1);
    for _ in 0..20 {
        m.update(&mut s, Key::ArrowRight, &mut ps, &mut ns);
    }
    assert_eq!(ps, 15);
    m.update(&mut s, Key::ArrowDown, &mut ps, &mut ns);
    assert_eq!(m.update(&mut s, Key::KeyD, &mut ps, &mut ns), TitleMenuResponse::Nothing);
    assert_eq!(ns, 12);
    m.update(&mut s, Key::KeyD, &mut ps, &mut ns);
    assert_eq!(ns, 12);
    for _ in 0..20 {
        m.update(&mut s, Key::KeyA, &mut ps, &mut ns);
    }
    assert_eq!(ns, 1);
}

#[test]
fn title_menu_text() {
    let mut m = TitleMenu::new();
    let s = AllSounds::new(true, false);
    let ops = m.text_ops(&s, 6, 8);
    assert_eq!(ops.len(), 45);
    assert_eq!(ops[0], GridOp::Start { x: 1, y: 1 });
    assert_eq!(ops[1], GridOp::WriteBig { text: "space game".to_string() });
    assert_eq!(ops[6], write("-"));
    assert_eq!(ops[10], write("enter"));
    assert_eq!(ops[17], write(" "));
    assert_eq!(ops[18], write("sfx only"));
    assert_eq!(ops[27], write("6"));
    assert_eq!(ops[36], write("8"));
    let mut snd = AllSounds::new(true, true);
    let mut ps = 6u8;
    let mut ns = 8u8;
    m.update(&mut snd, Key::ArrowDown, &mut ps, &mut ns);
    let ops = m.text_ops(&s, 6, 8);
    assert_eq!(ops[6], write(""));
    assert_eq!(ops[13], write("-"));
    assert_eq!(ops[17], write("<"));
    assert_eq!(ops[19], write(">"));
}

#[test]
fn level_select_navigation_and_choice() {
    let mut m = LevelSelectMenu::new(2);
    assert_eq!(m.selection(), 2);
    let mut s = AllSounds::new(true, true);
    assert_eq!(m.update(&mut s, Key::ArrowDown, 2), LSMUpdateResponse::Nothing);
    assert_eq!(m.selection(), 3);
    assert_eq!(m.update(&mut s, Key::Enter, 2), LSMUpdateResponse::Back);
    assert_eq!(m.update(&mut s, Key::ArrowDown, 2), LSMUpdateResponse::Nothing);
    assert_eq!(m.selection(), 0);
    assert_eq!(m.update(&mut s, Key::ArrowUp, 2), LSMUpdateResponse::Nothing);
    assert_eq!(m.selection(), 3);
    assert_eq!(m.update(&mut s, Key::KeyW, 2), LSMUpdateResponse::Nothing);
    assert_eq!(m.update(&mut s, Key::NumpadEnter, 2), LSMUpdateResponse::ToLevel { level_id: 2 });
    assert_eq!(m.update(&mut s, Key::Escape, 2), LSMUpdateResponse::Nothing);
}

#[test]
fn level_select_with_all_levels_cleared_stops_at_the_last() {
    let mut m = LevelSelectMenu::new(8);
    let mut s = AllSounds::new(true, true);
    assert_eq!(m.selection(), 8);
    assert_eq!(m.update(&mut s, Key::Enter, 8), LSMUpdateResponse::Back);
    m.update(&mut s, Key::ArrowUp, 8);
    assert_eq!(m.update(&mut s, Key::Enter, 8), LSMUpdateResponse::ToLevel { level_id: 7 });
}

#[test]
fn level_select_text() {
    let m = LevelSelectMenu::new(1);
    let progress = [37u64];
    assert!(m.text_fits(&progress));
    let ops = m.text_ops(&progress);
    assert_eq!(
        ops,
        vec![
            GridOp::Start { x: 1, y: 1 },
            GridOp::WriteBig { text: "level select".to_string() },
            GridOp::Start { x: 3, y: 5 },
            write("1"),
            GridOp::Start { x: 10, y: 5 },
            write("7.4"),
            GridOp::Start { x: 3, y: 6 },
            write("2"),
            GridOp::Start { x: 9, y: 6 },
            write("none"),
            GridOp::Start { x: 1, y: 6 },
            write("-"),
            GridOp::SetX { x: 17 },
            write("enter"),
            GridOp::Start { x: 1, y: 8 },
            write(""),
            GridOp::SetX { x: 3 },
            write("back"),
            GridOp::SetX { x: 17 },
            write(""),
        ]
    );
}

#[test]
fn level_select_text_shows_the_sum_once_all_are_cleared() {
    let m = LevelSelectMenu::new(8);
    let progress = [10u64, 20, 30, 40, 50, 60, 70, 80];
    let ops = m.text_ops(&progress);
    let n = ops.len();
    assert_eq!(ops[n - 2], GridOp::Start { x: 22, y: 1 });
    assert_eq!(ops[n - 1], write("sum:72.0"));
    assert!(!m.text_fits(&[u64::MAX; 8]));
}
