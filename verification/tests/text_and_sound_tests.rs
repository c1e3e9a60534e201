use space_game::game::time_display;
use space_game::geometry::Vector2;
use space_game::sounds::{bounce_restarts, AllSounds, AudioCommand, Music, Sfx};
use space_game::text::{decimal_string, time_string};
use space_game::ui::GridOp;

#[test]
fn decimal_strings() {
    assert_eq!(decimal_string(0), "0");
    assert_eq!(decimal_string(7), "7");
    assert_eq!(decimal_string(10), "10");
    assert_eq!(decimal_string(18446744073709551615), "18446744073709551615");
}

#[test]
fn times_are_shown_in_seconds_with_one_decimal() {
    assert_eq!(time_string(0), "0.0");
    assert_eq!(time_string(1), "0.2");
    assert_eq!(time_string(7), "1.4");
    assert_eq!(time_string(5), "1.0");
    assert_eq!(time_string(123), "24.6");
}

#[test]
fn time_display_ends_at_column_thirty() {
    assert_eq!(
        time_display(123),
        vec![GridOp::Start { x: 27, y: 1 }, GridOp::Write { text: "24.6".to_string() }]
    );
}

#[test]
fn muted_effects_issue_nothing() {
    let mut s = AllSounds::new(true, true);
    s.play_explosion();
    s.play_bounce();
    s.play_level_clear();
    s.play_menu_click();
    s.play_menu_navigate();
    s.play_black_hole_pull(Vector2 { x: 1, y: 2 });
    assert!(s.take_commands().is_empty());
}

#[test]
fn music_switches_between_tracks() {
    let mut s = AllSounds::new(false, false);
    assert_eq!(s.current_music(), Music::Menu);
    let _ = s.take_commands();
    s.set_to_game();
    s.set_to_game();
    s.set_to_menu();
    assert_eq!(
        s.take_commands(),
        vec![
            AudioCommand::StopMusic { music: Music::Menu },
            AudioCommand::PlayMusic { music: Music::Game },
            AudioCommand::StopMusic { music: Music::Game },
            AudioCommand::PlayMusic { music: Music::Menu },
        ]
    );
    s.set_music_muted(true);
    s.set_to_game();
    assert_eq!(s.current_music(), Music::Game);
    assert_eq!(s.take_commands(), vec![AudioCommand::StopMusic { music: Music::Menu }]);
    s.set_music_muted(false);
    assert_eq!(s.take_commands(), vec![AudioCommand::PlayMusic { music: Music::Game }]);
}

#[test]
fn effects_are_issued_in_order() {
    let mut s = AllSounds::new(true, false);
    s.play_explosion();
    s.play_black_hole_pull(Vector2 { x: -3, y: 0 });
    assert_eq!(
        s.take_commands(),
        vec![AudioCommand::PlaySfx { sfx: Sfx::Explosion }, AudioCommand::BlackHolePull { pull: Vector2 { x: -3, y: 0 } }]
    );
    assert!(s.take_commands().is_empty());
}

#[test]
fn bounce_restarts_only_when_idle_or_after_a_tenth_of_a_second() {
    assert!(bounce_restarts(false, 0));
    assert!(!bounce_restarts(true, 100_000_000));
    assert!(bounce_restarts(true, 100_000_001));
    assert!(!bounce_restarts(true, 5));
}
