use vstd::prelude::*;
use vstd::arithmetic::div_mod::lemma_fundamental_div_mod_converse;
use crate::animated::{centers_within, BlackHole, Explosion, Portal, PortalAnimation, PortalImage};
use crate::geometry::ToPixel;
use crate::sprite::{level_dest, on_screen_fits, on_screen_fits_exec, screen_pos, RotatedSpriteDraw, SpriteDraw};
use crate::camera::{camera_axis, camera_fits, camera_fits_exec, find_camera_pos, initial, initial_camera};
use crate::direction::Dir8;
use crate::geometry::{PixelRect, Point2, TilePoint, Vector2};
use crate::keys::Key;
use crate::text::{lemma_time_text_len, time_string, time_text};
use crate::ui::{ops_view, push_op, write_view, GridOp, GridOpView};
use vstd::string::StrSliceExecFns;
use crate::level::{first_occurrences, CollisionType, Level, LevelCollision};
use crate::units::{NUM_LEVELS, SCREEN_TILES_HEIGHT, SCREEN_TILES_WIDTH, TILE_PIXELS};
use crate::menu::{
    last_choosable, level_select_step, title_step, title_step_fits, LSMUpdateResponse, LevelSelectMenu,
    TitleMenu, TitleMenuResponse,
};
use crate::player::{flame_sprite, player_rect, ship_sprite, sounds_after_update, update_fits, updated, Player, PlayerView};
use crate::sounds::{AllSounds, AudioCommand, Music, Sfx, SoundState};

verus! {

/// The settings and best times kept between runs of the game.
pub struct GameSave {
    pub sfx_muted: bool,
    pub music_muted: bool,
    pub pixel_size: u8,
    pub num_subframes: u8,
    /// Best time of each cleared level, in full frames, level after level.
    pub progress: Vec<u64>,
}

impl GameSave {
    /// The save of a game never played: sound on, pixel size 6, 8 subframes,
    /// no level cleared.
    pub fn nonexistent_default() -> (r: GameSave)
        ensures
            !r.sfx_muted,
            !r.music_muted,
            r.pixel_size == 6,
            r.num_subframes == 8,
            r.progress@ == Seq::<u64>::empty(),
    {
        GameSave { sfx_muted: false, music_muted: false, pixel_size: 6, num_subframes: 8, progress: Vec::new() }
    }
}

/// Copies a list of times.
fn copy_times(v: &Vec<u64>) -> (r: Vec<u64>)
    ensures
        r@ == v@,
{
    let mut r: Vec<u64> = Vec::new();
    for i in 0..v.len()
        invariant
            r@ == v@.take(i as int),
    {
        r.push(v[i]);
        assert(r@ =~= v@.take(i + 1));
    }
    assert(r@ =~= v@);
    r
}

/// Whether the ship is flying, waiting to appear, or done with the level.
pub enum PlayerExistence {
    /// Flying, `timer` full frames after it appeared.
    Exists { player: Player, timer: u64 },
    /// Waiting `wait_counter` more full frames before appearing.
    Wait { wait_counter: u8 },
    /// The portal was reached after `final_time` full frames.
    LevelEnded { final_time: u64 },
}

/// The state of a level being played.
pub struct PlayingState {
    pub maybe_player: PlayerExistence,
    pub maybe_explosion: Option<Explosion>,
    pub portal: Portal,
    pub black_holes: Vec<BlackHole>,
    pub level_id: usize,
    pub camera: Point2,
    /// Subframe of the current full frame.
    pub subframe_counter: u8,
}

/// What the game shows.
#[allow(inconsistent_fields)]
pub enum State {
    TitleMenu { menu: TitleMenu },
    LevelSelectMenu { menu: LevelSelectMenu },
    Playing { state: PlayingState },
}

/// The whole game.
pub struct Game {
    pub state: State,
    pub sounds: AllSounds,
    pub pixel_size: u8,
    pub num_subframes: u8,
    pub progress: Vec<u64>,
}

/// `PlayerExistence` with the ship as its view.
pub enum ExistenceView {
    Exists { player: PlayerView, timer: u64 },
    Wait { wait_counter: u8 },
    LevelEnded { final_time: u64 },
}

/// `PlayingState` with its parts as their views.
pub struct PlayingView {
    pub existence: ExistenceView,
    pub explosion: Option<Explosion>,
    pub portal: Portal,
    pub black_holes: Seq<BlackHole>,
    pub level_id: usize,
    pub camera: Point2,
    pub subframe_counter: u8,
}

/// `State` with its parts as their views.
#[allow(inconsistent_fields)]
pub enum StateView {
    TitleMenu { menu: TitleMenu },
    LevelSelectMenu { menu: LevelSelectMenu },
    Playing { state: PlayingView },
}

/// `Game` with its parts as their views.
pub struct GameView {
    pub state: StateView,
    pub sounds: SoundState,
    pub pixel_size: u8,
    pub num_subframes: u8,
    pub progress: Seq<u64>,
}

impl View for PlayerExistence {
    type V = ExistenceView;

    open spec fn view(&self) -> ExistenceView {
        match self {
            PlayerExistence::Exists { player, timer } => ExistenceView::Exists { player: player@, timer: *timer },
            PlayerExistence::Wait { wait_counter } => ExistenceView::Wait { wait_counter: *wait_counter },
            PlayerExistence::LevelEnded { final_time } => ExistenceView::LevelEnded { final_time: *final_time },
        }
    }
}

impl View for PlayingState {
    type V = PlayingView;

    open spec fn view(&self) -> PlayingView {
        PlayingView {
            existence: self.maybe_player@,
            explosion: self.maybe_explosion,
            portal: self.portal,
            black_holes: self.black_holes@,
            level_id: self.level_id,
            camera: self.camera,
            subframe_counter: self.subframe_counter,
        }
    }
}

impl View for State {
    type V = StateView;

    open spec fn view(&self) -> StateView {
        match self {
            State::TitleMenu { menu } => StateView::TitleMenu { menu: *menu },
            State::LevelSelectMenu { menu } => StateView::LevelSelectMenu { menu: *menu },
            State::Playing { state } => StateView::Playing { state: state@ },
        }
    }
}

impl View for Game {
    type V = GameView;

    open spec fn view(&self) -> GameView {
        GameView {
            state: self.state@,
            sounds: self.sounds@,
            pixel_size: self.pixel_size,
            num_subframes: self.num_subframes,
            progress: self.progress@,
        }
    }
}

/// A level as it starts: the ship waits four full frames, the portal is
/// idle, the holes are at their first frame, the camera is on the spawn point.
pub open spec fn playing_start<T>(level: Level<T>, level_id: usize) -> PlayingView {
    PlayingView {
        existence: ExistenceView::Wait { wait_counter: 4 },
        explosion: None,
        portal: Portal::idle_at(level.spawn_portal_pos),
        black_holes: level.spawn_black_holes_pos@.map_values(|p: TilePoint| BlackHole::spawned(p)),
        level_id,
        camera: initial_camera(level),
        subframe_counter: 0,
    }
}

impl PlayingState {
    /// Starts level `level_id` of `levels`.
    pub fn new<T>(level_id: usize, levels: &[Level<T>]) -> (r: PlayingState)
        requires
            level_id < levels@.len(),
        ensures
            r@ == playing_start(levels@[level_id as int], level_id),
    {
        let level = &levels[level_id];
        let mut holes: Vec<BlackHole> = Vec::new();
        let n = level.spawn_black_holes_pos.len();
        for i in 0..n
            invariant
                n == level.spawn_black_holes_pos@.len(),
                holes@ == level.spawn_black_holes_pos@.take(i as int).map_values(|p: TilePoint| BlackHole::spawned(p)),
        {
            let pos = level.spawn_black_holes_pos[i];
            holes.push(BlackHole::new(pos));
            assert(level.spawn_black_holes_pos@.take(i + 1) =~= level.spawn_black_holes_pos@.take(i as int).push(pos));
            assert(holes@ =~= level.spawn_black_holes_pos@.take(i + 1).map_values(|p: TilePoint| BlackHole::spawned(p)));
        }
        assert(level.spawn_black_holes_pos@.take(n as int) =~= level.spawn_black_holes_pos@);
        PlayingState {
            maybe_player: PlayerExistence::Wait { wait_counter: 4 },
            maybe_explosion: None,
            portal: Portal::new(level.spawn_portal_pos),
            black_holes: holes,
            level_id,
            camera: initial(level),
            subframe_counter: 0,
        }
    }
}

/// What the host has to do after a key.
#[derive(Clone, Copy, PartialEq, Eq, Structural, Debug)]
pub struct KeyOutcome {
    /// Quit the program (saving first).
    pub quit: bool,
    /// Resize the window to the new pixel size.
    pub resize: bool,
}

/// The sound state after the settings are reset: both switches on.
pub open spec fn sounds_reset(s: SoundState) -> SoundState {
    SoundState { sfx_muted: false, ..s }.set_music_muted(false)
}

/// The game after a key press, and what the host has to do.
pub open spec fn key_step<T>(
    g: GameView,
    key: Key,
    alt: bool,
    shift: bool,
    levels: Seq<Level<T>>,
) -> (GameView, KeyOutcome) {
    let none = KeyOutcome { quit: false, resize: false };
    match g.state {
        StateView::Playing { state } => {
            let g1 = if key == Key::KeyR {
                GameView { state: StateView::Playing { state: playing_start(levels[state.level_id as int], state.level_id) }, ..g }
            } else {
                g
            };
            let g2 = if key == Key::Escape {
                GameView { state: StateView::TitleMenu { menu: TitleMenu::at(0) }, sounds: g1.sounds.change_music(Music::Menu), ..g1 }
            } else {
                g1
            };
            (g2, none)
        },
        StateView::TitleMenu { menu } => {
            let reset = alt && shift && key == Key::Delete;
            let g1 = if reset {
                GameView { sounds: sounds_reset(g.sounds), pixel_size: 6, num_subframes: 8, progress: Seq::empty(), ..g }
            } else {
                g
            };
            let (sel, resp, ps, ns, s) = title_step(
                menu.selection_spec() as int,
                key,
                g1.pixel_size as int,
                g1.num_subframes as int,
                g1.sounds,
            );
            let g2 = GameView { state: StateView::TitleMenu { menu: TitleMenu::at(sel as u8) }, sounds: s, pixel_size: ps as u8, num_subframes: ns as u8, ..g1 };
            let g3 = if resp == TitleMenuResponse::ToGame {
                if g2.progress.len() == 0 {
                    GameView { state: StateView::Playing { state: playing_start(levels[0], 0) }, sounds: g2.sounds.change_music(Music::Game), ..g2 }
                } else {
                    GameView { state: StateView::LevelSelectMenu { menu: LevelSelectMenu::at((g2.progress.len() % 256) as u8) }, ..g2 }
                }
            } else {
                g2
            };
            (g3, KeyOutcome { quit: reset || resp == TitleMenuResponse::Quit, resize: resp == TitleMenuResponse::Resize })
        },
        StateView::LevelSelectMenu { menu } => {
            let (sel, resp, s) = level_select_step(menu.selection_spec() as int, key, g.progress.len() as int, g.sounds);
            let g1 = match resp {
                LSMUpdateResponse::ToLevel { level_id } =>
                    GameView { state: StateView::Playing { state: playing_start(levels[level_id as int], level_id) }, sounds: s.change_music(Music::Game), ..g },
                LSMUpdateResponse::Back => GameView { state: StateView::TitleMenu { menu: TitleMenu::at(0) }, sounds: s, ..g },
                LSMUpdateResponse::Nothing => GameView { state: StateView::LevelSelectMenu { menu: LevelSelectMenu::at(sel as u8) }, sounds: s, ..g },
            };
            (g1, none)
        },
    }
}

/// The game after a key event as the window reports it: a repeat, or a key
/// without a key code (`None`), changes nothing and asks nothing of the host.
pub open spec fn key_event_step<T>(
    g: GameView,
    key: Option<Key>,
    repeated: bool,
    alt: bool,
    shift: bool,
    levels: Seq<Level<T>>,
) -> (GameView, KeyOutcome) {
    match key {
        Some(k) if !repeated => key_step(g, k, alt, shift, levels),
        _ => (g, KeyOutcome { quit: false, resize: false }),
    }
}

/// Whether a key event can be handled: a press that is no repeat and has a
/// key code must meet `key_fits`.
pub open spec fn key_event_fits<T>(
    g: GameView,
    key: Option<Key>,
    repeated: bool,
    alt: bool,
    shift: bool,
    levels: Seq<Level<T>>,
) -> bool {
    match key {
        Some(k) if !repeated => key_fits(g, k, alt, shift, levels),
        _ => true,
    }
}

/// Whether a key press can be handled: the level to start is one of
/// `levels`, and the settings and the menu selection stay in a byte.
pub open spec fn key_fits<T>(g: GameView, key: Key, alt: bool, shift: bool, levels: Seq<Level<T>>) -> bool {
    match g.state {
        StateView::Playing { state } => key == Key::KeyR ==> state.level_id < levels.len(),
        StateView::TitleMenu { menu } => {
            let reset = alt && shift && key == Key::Delete;
            let ps = if reset { 6 } else { g.pixel_size };
            let ns = if reset { 8 } else { g.num_subframes };
            let progress_len = if reset { 0 } else { g.progress.len() };
            &&& title_step_fits(menu.selection_spec() as int, key, ps as int, ns as int)
            &&& (menu.selection_spec() == 0 && (key == Key::Enter || key == Key::NumpadEnter) && progress_len == 0
                ==> levels.len() >= 1)
        },
        StateView::LevelSelectMenu { menu } => {
            let sel = menu.selection_spec() as int;
            let p = last_choosable(g.progress.len() as int);
            &&& ((key == Key::ArrowDown || key == Key::KeyS) && sel != p + 1 ==> sel < 255)
            &&& ((key == Key::Enter || key == Key::NumpadEnter) && sel != p + 1 ==> sel < levels.len())
        },
    }
}

impl Game {
    /// The game at the title menu, with the settings and best times of `save`.
    pub fn new(save: &GameSave) -> (r: Game)
        ensures
            r@.state == (StateView::TitleMenu { menu: TitleMenu::at(0) }),
            r@.sounds == AllSounds::new_spec(save.music_muted, save.sfx_muted),
            r@.pixel_size == save.pixel_size,
            r@.num_subframes == save.num_subframes,
            r@.progress == save.progress@,
    {
        Game {
            state: State::TitleMenu { menu: TitleMenu::new() },
            sounds: AllSounds::new(save.music_muted, save.sfx_muted),
            pixel_size: save.pixel_size,
            num_subframes: save.num_subframes,
            progress: copy_times(&save.progress),
        }
    }

    /// What is saved when the game quits: the sound switches, the pixel size,
    /// the subframes and the best times.
    pub fn to_save(&self) -> (r: GameSave)
        ensures
            r.sfx_muted == self@.sounds.sfx_muted,
            r.music_muted == self@.sounds.music_muted,
            r.pixel_size == self@.pixel_size,
            r.num_subframes == self@.num_subframes,
            r.progress@ == self@.progress,
    {
        GameSave {
            sfx_muted: self.sounds.sfx_muted(),
            music_muted: self.sounds.music_muted(),
            pixel_size: self.pixel_size,
            num_subframes: self.num_subframes,
            progress: copy_times(&self.progress),
        }
    }

    /// Handles a key event as the window reports it: the repeat of a key held
    /// down, or a key without a key code (`None`), is ignored; any other
    /// press goes to `key_down`.
    pub fn key_event<T>(
        &mut self,
        key: Option<Key>,
        repeated: bool,
        alt: bool,
        shift: bool,
        levels: &[Level<T>],
    ) -> (r: KeyOutcome)
        requires
            key_event_fits(old(self)@, key, repeated, alt, shift, levels@),
        ensures
            (final(self)@, r) == key_event_step(old(self)@, key, repeated, alt, shift, levels@),
    {
        if repeated {
            return KeyOutcome { quit: false, resize: false };
        }
        match key {
            Some(k) => self.key_down(k, alt, shift, levels),
            None => KeyOutcome { quit: false, resize: false },
        }
    }

    /// Whether `key_event` can run with these arguments, as `key_event_fits`
    /// says.
    pub fn key_event_fits<T>(&self, key: Option<Key>, repeated: bool, alt: bool, shift: bool, levels: &[Level<T>]) -> (r: bool)
        ensures
            r == key_event_fits(self@, key, repeated, alt, shift, levels@),
    {
        if repeated {
            return true;
        }
        match key {
            Some(k) => self.key_down_fits(k, alt, shift, levels),
            None => true,
        }
    }

    /// Handles a key press (`alt` and `shift` tell whether these modifiers
    /// are held): in a level, R restarts it and Escape goes back to the title
    /// menu; in the title menu, Alt+Shift+Delete resets the settings and best
    /// times and quits, other keys go to the menu, and choosing "play" starts
    /// the first level, or the level select menu once a level is cleared; in
    /// the level select menu, the chosen level starts.
    pub fn key_down<T>(&mut self, key: Key, alt: bool, shift: bool, levels: &[Level<T>]) -> (r: KeyOutcome)
        requires
            key_fits(old(self)@, key, alt, shift, levels@),
        ensures
            (final(self)@, r) == key_step(old(self)@, key, alt, shift, levels@),
    {
        let ghost g = self@;
        let mut outcome = KeyOutcome { quit: false, resize: false };
        let mut next: Option<State> = None;
        match &mut self.state {
            State::Playing { state } => {
                let level_id = state.level_id;
                if key == Key::KeyR {
                    next = Some(State::Playing { state: PlayingState::new(level_id, levels) });
                }
                if key == Key::Escape {
                    next = Some(State::TitleMenu { menu: TitleMenu::new() });
                    self.sounds.set_to_menu();
                }
            },
            State::TitleMenu { menu } => {
                if alt && shift && key == Key::Delete {
                    let defaults = GameSave::nonexistent_default();
                    self.sounds.set_sfx_muted(defaults.sfx_muted);
                    self.sounds.set_music_muted(defaults.music_muted);
                    self.pixel_size = defaults.pixel_size;
                    self.num_subframes = defaults.num_subframes;
                    self.progress = defaults.progress;
                    outcome.quit = true;
                }
                let response = menu.update(&mut self.sounds, key, &mut self.pixel_size, &mut self.num_subframes);
                if response == TitleMenuResponse::Quit {
                    outcome.quit = true;
                }
                if response == TitleMenuResponse::Resize {
                    outcome.resize = true;
                }
                if response == TitleMenuResponse::ToGame {
                    if self.progress.len() == 0 {
                        self.sounds.set_to_game();
                        next = Some(State::Playing { state: PlayingState::new(0, levels) });
                    } else {
                        next = Some(State::LevelSelectMenu { menu: LevelSelectMenu::new(self.progress.len()) });
                    }
                }
            },
            State::LevelSelectMenu { menu } => {
                let response = menu.update(&mut self.sounds, key, self.progress.len());
                match response {
                    LSMUpdateResponse::ToLevel { level_id } => {
                        next = Some(State::Playing { state: PlayingState::new(level_id, levels) });
                        self.sounds.set_to_game();
                    },
                    LSMUpdateResponse::Back => {
                        next = Some(State::TitleMenu { menu: TitleMenu::new() });
                    },
                    LSMUpdateResponse::Nothing => {},
                }
            },
        }
        match next {
            Some(state) => { self.state = state; },
            None => {},
        }
        outcome
    }
}

} // verus!

verus! {

/// The blast after a subframe: gone once it has played out, else one
/// subframe further.
pub open spec fn explosion_step(e: Option<Explosion>, ns: u8) -> Option<Explosion> {
    match e {
        Some(x) => if x.frame_spec() == 3 { None } else { Some(x.after_update(ns)) },
        None => None,
    }
}

/// Whether the ship's square touches a wall tile.
pub open spec fn touches_wall(collision: LevelCollision, rect: PixelRect) -> bool {
    first_occurrences(collision.touching_columns(rect).flatten()).contains(CollisionType::Wall)
}

/// Whether the ship's square is within reach of a black hole.
pub open spec fn hits_black_hole(holes: Seq<BlackHole>, rect: PixelRect) -> bool {
    exists|i: int|
        0 <= i < holes.len() && centers_within(rect, (#[trigger] holes[i]).rect_spec().to_pixel_spec(), 3 * TILE_PIXELS / 2)
}

/// The best times after level `level_id` is cleared in `time` full frames:
/// the better of the old and the new time, or the new time appended for a
/// level cleared for the first time.
pub open spec fn record_time(progress: Seq<u64>, level_id: int, time: u64) -> Seq<u64> {
    if level_id < progress.len() {
        progress.update(level_id, if progress[level_id] <= time { progress[level_id] } else { time })
    } else {
        progress.push(time)
    }
}

/// The ship as it appears at the start of a level.
pub open spec fn spawned_player(pos: TilePoint) -> PlayerView {
    PlayerView { pos: pos.to_pixel_spec(), vel: Vector2 { x: 0, y: 0 }, dir: Dir8::Up, fire: false }
}

/// The part of a subframe that concerns the ship, on a level whose portal
/// and holes have already moved on: the ship flies (the camera following
/// where it was), may reach the portal and may crash; a waiting ship appears
/// after its wait. Gives the level, the sounds and the best times.
pub open spec fn ship_phase<T>(
    st: PlayingView,
    level: Level<T>,
    keys: Seq<Key>,
    ns: u8,
    sounds: SoundState,
    progress: Seq<u64>,
) -> (PlayingView, SoundState, Seq<u64>) {
    let sub = st.subframe_counter;
    match st.existence {
        ExistenceView::Exists { player, timer } => {
            let dim = level.collision.dim_spec();
            let camera = Point2 {
                x: camera_axis(player.pos.x as int, player.vel.x as int, dim.width as int, SCREEN_TILES_WIDTH as int) as i32,
                y: camera_axis(player.pos.y as int, player.vel.y as int, dim.height as int, SCREEN_TILES_HEIGHT as int) as i32,
            };
            let p2 = updated(player, level.collision, keys, st.black_holes, sub as int, ns as int);
            let s1 = sounds_after_update(sounds, player, level.collision, st.black_holes, sub as int);
            let rect = player_rect(p2.pos);
            let reached = centers_within(rect, st.portal.rect_spec().to_pixel_spec(), 2 * TILE_PIXELS);
            let s2 = if reached { s1.play(AudioCommand::PlaySfx { sfx: Sfx::LevelClear }) } else { s1 };
            let progress2 = if reached { record_time(progress, st.level_id as int, timer) } else { progress };
            let ex2 = if reached {
                ExistenceView::LevelEnded { final_time: timer }
            } else {
                ExistenceView::Exists { player: p2, timer }
            };
            let portal2 = if reached { st.portal.collapsing() } else { st.portal };
            let crashed = touches_wall(level.collision, rect) || hits_black_hole(st.black_holes, rect);
            let s3 = if crashed { s2.play(AudioCommand::PlaySfx { sfx: Sfx::Explosion }) } else { s2 };
            let ex3 = if crashed { ExistenceView::Wait { wait_counter: 4 } } else { ex2 };
            let explosion3 = if crashed { Some(Explosion::spawned(p2.pos)) } else { st.explosion };
            (
                PlayingView { existence: ex3, explosion: explosion3, portal: portal2, camera, ..st },
                s3,
                progress2,
            )
        },
        ExistenceView::Wait { wait_counter } => {
            if sub != 0 {
                (st, sounds, progress)
            } else if wait_counter == 0 {
                (
                    PlayingView {
                        existence: ExistenceView::Exists { player: spawned_player(level.spawn_player_pos), timer: 0 },
                        camera: initial_camera(level),
                        ..st
                    },
                    sounds,
                    progress,
                )
            } else {
                (PlayingView { existence: ExistenceView::Wait { wait_counter: (wait_counter - 1) as u8 }, ..st }, sounds, progress)
            }
        },
        ExistenceView::LevelEnded { .. } => (st, sounds, progress),
    }
}

/// The end of a subframe: the counter moves on, and at the end of a full
/// frame goes back to 0 and the flying ship's timer counts the frame.
pub open spec fn count_subframe(st: PlayingView, ns: u8) -> PlayingView {
    let next = st.subframe_counter + 1;
    if next == ns {
        PlayingView {
            subframe_counter: 0,
            existence: match st.existence {
                ExistenceView::Exists { player, timer } => ExistenceView::Exists { player, timer: (timer + 1) as u64 },
                other => other,
            },
            ..st
        }
    } else {
        PlayingView { subframe_counter: next as u8, ..st }
    }
}

/// The game after one subframe with `keys` held. Only a level being played
/// moves: the blast, the portal and the holes are animated, then the ship;
/// once the portal has collapsed the game goes to the level select menu
/// (with the best times as they were before this subframe) and the menu music.
pub open spec fn tick_step<T>(g: GameView, keys: Seq<Key>, levels: Seq<Level<T>>) -> GameView {
    match g.state {
        StateView::Playing { state } => {
            let ns = g.num_subframes;
            let sub = state.subframe_counter;
            let level = levels[state.level_id as int];
            let done = sub == 0 && state.portal.anim_spec() == PortalAnimation::DoneCollapsing;
            let s0 = if done { g.sounds.change_music(Music::Menu) } else { g.sounds };
            let st1 = PlayingView {
                explosion: explosion_step(state.explosion, ns),
                portal: state.portal.after_update(sub),
                black_holes: state.black_holes.map_values(|h: BlackHole| h.after_update(sub)),
                ..state
            };
            let (st2, s2, progress2) = ship_phase(st1, level, keys, ns, s0, g.progress);
            let st3 = count_subframe(st2, ns);
            GameView {
                state: if done {
                    StateView::LevelSelectMenu { menu: LevelSelectMenu::at((g.progress.len() % 256) as u8) }
                } else {
                    StateView::Playing { state: st3 }
                },
                sounds: s2,
                progress: progress2,
                ..g
            }
        },
        _ => g,
    }
}

} // verus!

verus! {

/// Whether a hole is checked for the ship only if no hole before it has
/// caught the ship, and every hole checked lies in the tile range.
pub open spec fn holes_checkable(holes: Seq<BlackHole>, rect: PixelRect) -> bool {
    forall|i: int|
        0 <= i < holes.len() && (forall|j: int|
            0 <= j < i ==> !centers_within(rect, (#[trigger] holes[j]).rect_spec().to_pixel_spec(), 3 * TILE_PIXELS / 2))
            ==> (#[trigger] holes[i]).rect_fits()
}

/// Whether the ship's part of a subframe can be computed: the camera, the
/// ship's flight, then the checks on where it ends up (portal, walls and
/// holes), and the blast where it crashes.
pub open spec fn ship_phase_fits<T>(st: PlayingView, level: Level<T>, keys: Seq<Key>, ns: u8) -> bool {
    match st.existence {
        ExistenceView::Exists { player, timer } => {
            let sub = st.subframe_counter;
            let p2 = updated(player, level.collision, keys, st.black_holes, sub as int, ns as int);
            let rect = player_rect(p2.pos);
            &&& camera_fits(player.pos, player.vel)
            &&& update_fits(player, level.collision, keys, st.black_holes, sub as int, ns as int)
            &&& st.portal.rect_fits()
            &&& p2.pos.x + TILE_PIXELS <= i32::MAX
            &&& p2.pos.y + TILE_PIXELS <= i32::MAX
            &&& level.collision.covers(rect)
            &&& (!touches_wall(level.collision, rect) ==> holes_checkable(st.black_holes, rect))
            &&& (touches_wall(level.collision, rect) || hits_black_hole(st.black_holes, rect) ==> {
                &&& p2.pos.x - TILE_PIXELS >= i32::MIN
                &&& p2.pos.y - TILE_PIXELS >= i32::MIN
            })
        },
        _ => true,
    }
}

/// Whether a subframe of the game can be computed with `keys` held and
/// `levels` as the levels: a valid subframe of at least one, a level of
/// `levels`, animations in their ranges, the ship's part computable, and a
/// timer that can still count.
pub open spec fn tick_fits<T>(g: GameView, keys: Seq<Key>, levels: Seq<Level<T>>) -> bool {
    match g.state {
        StateView::Playing { state } => {
            let ns = g.num_subframes;
            let sub = state.subframe_counter;
            let st1 = PlayingView {
                explosion: explosion_step(state.explosion, ns),
                portal: state.portal.after_update(sub),
                black_holes: state.black_holes.map_values(|h: BlackHole| h.after_update(sub)),
                ..state
            };
            let done = sub == 0 && state.portal.anim_spec() == PortalAnimation::DoneCollapsing;
            let s0 = if done { g.sounds.change_music(Music::Menu) } else { g.sounds };
            let (st2, _, _) = ship_phase(st1, levels[state.level_id as int], keys, ns, s0, g.progress);
            &&& 1 <= ns
            &&& sub < ns
            &&& state.level_id < levels.len()
            &&& (state.explosion matches Some(e) ==> e.frame_spec() <= 3 && e.frame_counter_spec() < 255)
            &&& state.portal.wf()
            &&& forall|i: int| 0 <= i < state.black_holes.len() ==> (#[trigger] state.black_holes[i]).frame_spec() <= 3
            &&& ship_phase_fits(st1, levels[state.level_id as int], keys, ns)
            &&& (st2.existence matches ExistenceView::Exists { timer, .. } ==> (sub + 1 == ns ==> timer < u64::MAX))
        },
        _ => true,
    }
}

/// Animates the holes by one subframe.
fn update_holes(holes: &Vec<BlackHole>, sub: u8) -> (r: Vec<BlackHole>)
    requires
        forall|i: int| 0 <= i < holes@.len() ==> (#[trigger] holes@[i]).frame_spec() <= 3,
    ensures
        r@ == holes@.map_values(|h: BlackHole| h.after_update(sub)),
{
    let mut r: Vec<BlackHole> = Vec::new();
    let n = holes.len();
    for i in 0..n
        invariant
            n == holes@.len(),
            forall|i: int| 0 <= i < holes@.len() ==> (#[trigger] holes@[i]).frame_spec() <= 3,
            r@ == holes@.take(i as int).map_values(|h: BlackHole| h.after_update(sub)),
    {
        let mut h = holes[i];
        assert(h.frame_spec() <= 3);
        h.update(sub);
        r.push(h);
        assert(holes@.take(i + 1) =~= holes@.take(i as int).push(holes@[i as int]));
        assert(r@ =~= holes@.take(i + 1).map_values(|h: BlackHole| h.after_update(sub)));
    }
    assert(holes@.take(n as int) =~= holes@);
    r
}

/// Whether the ship's square is within reach of one of the holes.
fn hits_any_hole(holes: &Vec<BlackHole>, rect: PixelRect) -> (r: bool)
    requires
        holes_checkable(holes@, rect),
    ensures
        r == hits_black_hole(holes@, rect),
{
    let n = holes.len();
    for i in 0..n
        invariant
            n == holes@.len(),
            holes_checkable(holes@, rect),
            forall|j: int|
                0 <= j < i ==> !centers_within(rect, (#[trigger] holes@[j]).rect_spec().to_pixel_spec(), 3 * TILE_PIXELS / 2),
    {
        assert(holes@[i as int].rect_fits());
        if holes[i].collides_with(rect) {
            assert(centers_within(rect, holes@[i as int].rect_spec().to_pixel_spec(), 3 * TILE_PIXELS / 2));
            return true;
        }
    }
    false
}

/// Whether `tiles` holds a wall.
fn has_wall(tiles: &Vec<CollisionType>) -> (r: bool)
    ensures
        r == tiles@.contains(CollisionType::Wall),
{
    let n = tiles.len();
    for i in 0..n
        invariant
            n == tiles@.len(),
            forall|j: int| 0 <= j < i ==> tiles@[j] != CollisionType::Wall,
    {
        if tiles[i] == CollisionType::Wall {
            assert(tiles@[i as int] == CollisionType::Wall);
            return true;
        }
    }
    false
}

/// Records a time for level `level_id`, as `record_time` says.
fn record_time_exec(progress: &mut Vec<u64>, level_id: usize, time: u64)
    ensures
        final(progress)@ == record_time(old(progress)@, level_id as int, time),
{
    if level_id < progress.len() {
        let previous = progress[level_id];
        progress.set(level_id, if previous <= time { previous } else { time });
    } else {
        progress.push(time);
    }
}

} // verus!

verus! {

/// The ship's part of a subframe, as `ship_phase` says.
fn ship_phase_exec<T>(
    state: &mut PlayingState,
    level: &Level<T>,
    keys: &[Key],
    ns: u8,
    sounds: &mut AllSounds,
    progress: &mut Vec<u64>,
)
    requires
        ship_phase_fits(old(state)@, *level, keys@, ns),
    ensures
        (final(state)@, final(sounds)@, final(progress)@) == ship_phase(
            old(state)@,
            *level,
            keys@,
            ns,
            old(sounds)@,
            old(progress)@,
        ),
{
    let sub = state.subframe_counter;
    let mut existence = PlayerExistence::Wait { wait_counter: 0 };
    std::mem::swap(&mut existence, &mut state.maybe_player);
    match existence {
        PlayerExistence::Exists { mut player, timer } => {
            state.camera = find_camera_pos(player.pos(), player.vel(), level.collision.dim());
            player.update(sounds, sub, ns, keys, &level.collision, state.black_holes.as_slice());
            let player_pos = player.pos();
            let rect = player.rect();
            let mut next = PlayerExistence::Exists { player, timer };
            if state.portal.collides_with(rect) {
                sounds.play_level_clear();
                record_time_exec(progress, state.level_id, timer);
                next = PlayerExistence::LevelEnded { final_time: timer };
                state.portal.set_collapsing();
            }
            let tiles = level.collision.touching(rect);
            let crashed = has_wall(&tiles) || hits_any_hole(&state.black_holes, rect);
            if crashed {
                sounds.play_explosion();
                state.maybe_explosion = Some(Explosion::new(player_pos));
                next = PlayerExistence::Wait { wait_counter: 4 };
            }
            state.maybe_player = next;
        },
        PlayerExistence::Wait { wait_counter } => {
            if sub == 0 {
                if wait_counter == 0 {
                    state.maybe_player = PlayerExistence::Exists { player: Player::new(level.spawn_player_pos), timer: 0 };
                    state.camera = initial(level);
                } else {
                    state.maybe_player = PlayerExistence::Wait { wait_counter: wait_counter - 1 };
                }
            } else {
                state.maybe_player = PlayerExistence::Wait { wait_counter };
            }
        },
        PlayerExistence::LevelEnded { final_time } => {
            state.maybe_player = PlayerExistence::LevelEnded { final_time };
        },
    }
}

/// The end of a subframe, as `count_subframe` says.
fn count_subframe_exec(state: &mut PlayingState, ns: u8)
    requires
        old(state).subframe_counter < ns,
        old(state)@.existence matches ExistenceView::Exists { timer, .. }
            ==> (old(state).subframe_counter + 1 == ns ==> timer < u64::MAX),
    ensures
        final(state)@ == count_subframe(old(state)@, ns),
{
    state.subframe_counter = state.subframe_counter + 1;
    if state.subframe_counter == ns {
        state.subframe_counter = 0;
        let mut existence = PlayerExistence::Wait { wait_counter: 0 };
        std::mem::swap(&mut existence, &mut state.maybe_player);
        state.maybe_player = match existence {
            PlayerExistence::Exists { player, timer } => PlayerExistence::Exists { player, timer: timer + 1 },
            other => other,
        };
    }
}

impl Game {
    /// One subframe of the game with `keys` held, as `tick_step` says: the
    /// host calls it `FULL_FRAME_FPS` times the number of subframes per second.
    pub fn update<T>(&mut self, keys: &[Key], levels: &[Level<T>])
        requires
            tick_fits(old(self)@, keys@, levels@),
        ensures
            final(self)@ == tick_step(old(self)@, keys@, levels@),
    {
        let ns = self.num_subframes;
        let progress_len = self.progress.len();
        let mut done = false;
        match &mut self.state {
            State::Playing { state } => {
                let level = &levels[state.level_id];
                let sub = state.subframe_counter;
                match state.maybe_explosion {
                    Some(e0) => {
                        let mut e = e0;
                        let expired = e.update(ns);
                        state.maybe_explosion = if expired { None } else { Some(e) };
                    },
                    None => {},
                }
                if state.portal.update(sub) {
                    done = true;
                    self.sounds.set_to_menu();
                }
                state.black_holes = update_holes(&state.black_holes, sub);
                ship_phase_exec(state, level, keys, ns, &mut self.sounds, &mut self.progress);
                count_subframe_exec(state, ns);
            },
            _ => {},
        }
        if done {
            self.state = State::LevelSelectMenu { menu: LevelSelectMenu::new(progress_len) };
        }
    }
}

} // verus!

verus! {

/// Whether every hole checked for the ship lies in the tile range, as
/// `holes_checkable` says.
fn holes_checkable_exec(holes: &Vec<BlackHole>, rect: PixelRect) -> (r: bool)
    ensures
        r == holes_checkable(holes@, rect),
{
    let n = holes.len();
    for i in 0..n
        invariant
            n == holes@.len(),
            forall|j: int| 0 <= j < i ==> (#[trigger] holes@[j]).rect_fits(),
            forall|j: int|
                0 <= j < i ==> !centers_within(rect, (#[trigger] holes@[j]).rect_spec().to_pixel_spec(), 3 * TILE_PIXELS / 2),
    {
        if !holes[i].rect_fits_exec() {
            return false;
        }
        if holes[i].collides_with(rect) {
            assert forall|k: int|
                0 <= k < holes@.len() && (forall|j: int|
                    0 <= j < k ==> !centers_within(rect, (#[trigger] holes@[j]).rect_spec().to_pixel_spec(), 3 * TILE_PIXELS / 2))
                implies (#[trigger] holes@[k]).rect_fits() by {
                if k > i {
                    assert(!centers_within(rect, holes@[i as int].rect_spec().to_pixel_spec(), 3 * TILE_PIXELS / 2));
                }
            }
            return true;
        }
    }
    true
}

impl Game {
    /// Whether a key press can be handled, as `key_fits` says.
    pub fn key_down_fits<T>(&self, key: Key, alt: bool, shift: bool, levels: &[Level<T>]) -> (r: bool)
        ensures
            r == key_fits(self@, key, alt, shift, levels@),
    {
        match &self.state {
            State::Playing { state } => key != Key::KeyR || state.level_id < levels.len(),
            State::TitleMenu { menu } => {
                let reset = alt && shift && key == Key::Delete;
                let ps = if reset { 6 } else { self.pixel_size };
                let ns = if reset { 8 } else { self.num_subframes };
                let progress_len = if reset { 0 } else { self.progress.len() };
                let sel = menu.selection();
                let left = key == Key::ArrowLeft || key == Key::KeyA;
                let right = key == Key::ArrowRight || key == Key::KeyD;
                let enter = key == Key::Enter || key == Key::NumpadEnter;
                !(sel == 2 && left && ps == 0) && !(sel == 2 && right && ps == 255)
                    && !(sel == 3 && left && ns == 0) && !(sel == 3 && right && ns == 255)
                    && (!(sel == 0 && enter && progress_len == 0) || levels.len() >= 1)
            },
            State::LevelSelectMenu { menu } => {
                let sel = menu.selection();
                let p: u8 = if self.progress.len() < NUM_LEVELS - 1 { self.progress.len() as u8 } else { (NUM_LEVELS - 1) as u8 };
                let down = key == Key::ArrowDown || key == Key::KeyS;
                let enter = key == Key::Enter || key == Key::NumpadEnter;
                let at_back = sel as u16 == p as u16 + 1;
                (!(down && !at_back) || sel < 255) && (!(enter && !at_back) || (sel as usize) < levels.len())
            },
        }
    }

    /// Whether a subframe can be computed, as `tick_fits` says.
    pub fn tick_fits_exec<T>(&self, keys: &[Key], levels: &[Level<T>]) -> (r: bool)
        ensures
            r == tick_fits(self@, keys@, levels@),
    {
        let ns = self.num_subframes;
        match &self.state {
            State::Playing { state } => {
                let sub = state.subframe_counter;
                if ns < 1 || sub >= ns || state.level_id >= levels.len() {
                    return false;
                }
                match state.maybe_explosion {
                    Some(e) => {
                        if e.frame() > 3 || e.frame_counter() >= 255 {
                            return false;
                        }
                    },
                    None => {},
                }
                if !state.portal.wf_exec() {
                    return false;
                }
                let n = state.black_holes.len();
                for i in 0..n
                    invariant
                        n == state.black_holes@.len(),
                        self@.state == (StateView::Playing { state: state@ }),
                        forall|j: int| 0 <= j < i ==> (#[trigger] state.black_holes@[j]).frame_spec() <= 3,
                {
                    if state.black_holes[i].frame() > 3 {
                        assert(!(state@.black_holes[i as int].frame_spec() <= 3));
                        return false;
                    }
                }
                let level = &levels[state.level_id];
                let holes = update_holes(&state.black_holes, sub);
                let mut portal = state.portal;
                portal.update(sub);
                match &state.maybe_player {
                    PlayerExistence::Exists { player, timer } => {
                        if !camera_fits_exec(player.pos(), player.vel()) {
                            return false;
                        }
                        if !player.update_fits_exec(sub, ns, keys, &level.collision, holes.as_slice()) {
                            return false;
                        }
                        let next = player.peek_update(sub, ns, keys, &level.collision, holes.as_slice());
                        let pos = next.pos();
                        if !portal.rect_fits_exec() {
                            return false;
                        }
                        if pos.x as i64 + TILE_PIXELS as i64 > i32::MAX as i64
                            || pos.y as i64 + TILE_PIXELS as i64 > i32::MAX as i64 {
                            return false;
                        }
                        let rect = next.rect();
                        if !level.collision.covers_exec(rect) {
                            return false;
                        }
                        let tiles = level.collision.touching(rect);
                        let wall = has_wall(&tiles);
                        if !wall && !holes_checkable_exec(&holes, rect) {
                            return false;
                        }
                        let crashed = wall || hits_any_hole(&holes, rect);
                        if crashed && (pos.x as i64 - (TILE_PIXELS as i64) < i32::MIN as i64
                            || pos.y as i64 - (TILE_PIXELS as i64) < i32::MIN as i64) {
                            return false;
                        }
                        let reached = portal.collides_with(rect);
                        !(!crashed && !reached && sub as u16 + 1 == ns as u16 && *timer == u64::MAX)
                    },
                    _ => true,
                }
            },
            _ => true,
        }
    }
}

} // verus!

verus! {

/// The time shown at the top right while a level is played: the ship's
/// timer while it flies, the final time once the portal is reached, nothing
/// while it waits.
pub open spec fn shown_time_spec(st: PlayingView) -> Option<u64> {
    match st.existence {
        ExistenceView::Exists { timer, .. } => Some(timer),
        ExistenceView::Wait { .. } => None,
        ExistenceView::LevelEnded { final_time } => Some(final_time),
    }
}

/// The steps that write a time at the top right: ending at column 30 of row 1.
pub open spec fn time_display_ops(time: u64) -> Seq<GridOpView> {
    let t = time_text(time as nat);
    seq![GridOpView::Start { x: (31 - t.len()) as u8, y: 1 }, write_view(t)]
}

impl PlayingState {
    /// The time shown at the top right, if any.
    pub fn shown_time(&self) -> (r: Option<u64>)
        ensures
            r == shown_time_spec(self@),
    {
        match &self.maybe_player {
            PlayerExistence::Exists { timer, .. } => Some(*timer),
            PlayerExistence::Wait { .. } => None,
            PlayerExistence::LevelEnded { final_time } => Some(*final_time),
        }
    }
}

/// The steps that write `time` (in full frames) at the top right.
pub fn time_display(time: u64) -> (r: Vec<GridOp>)
    requires
        time * 10 <= u64::MAX,
    ensures
        ops_view(r@) == time_display_ops(time),
{
    let t = time_string(time);
    proof { lemma_time_text_len(time as nat); }
    let len = t.as_str().unicode_len();
    let mut ops: Vec<GridOp> = Vec::new();
    push_op(&mut ops, GridOp::Start { x: 31 - len as u8, y: 1 });
    push_op(&mut ops, GridOp::Write { text: t });
    assert(ops_view(ops@) =~= time_display_ops(time));
    ops
}

/// Recording a time never makes a best time worse, keeps the other levels'
/// times, and adds a time only for a level cleared for the first time.
pub proof fn law_record_time_keeps_best(progress: Seq<u64>, level_id: int, time: u64)
    requires
        0 <= level_id,
    ensures
        forall|i: int| 0 <= i < progress.len() ==> #[trigger] record_time(progress, level_id, time)[i] <= progress[i],
        forall|i: int| 0 <= i < progress.len() && i != level_id ==> #[trigger] record_time(progress, level_id, time)[i] == progress[i],
        level_id < progress.len() ==> record_time(progress, level_id, time).len() == progress.len(),
        level_id >= progress.len() ==> record_time(progress, level_id, time) == progress.push(time),
        level_id < progress.len() ==> record_time(progress, level_id, time)[level_id] <= time,
{
}

/// Over a subframe, no best time gets worse and at most one is added.
pub proof fn law_tick_keeps_best_times<T>(g: GameView, keys: Seq<Key>, levels: Seq<Level<T>>)
    ensures
        ({
            let g2 = tick_step(g, keys, levels);
            &&& forall|i: int| 0 <= i < g.progress.len() ==> #[trigger] g2.progress[i] <= g.progress[i]
            &&& g.progress.len() <= g2.progress.len() <= g.progress.len() + 1
        }),
{
    match g.state {
        StateView::Playing { state } => {
            let g2 = tick_step(g, keys, levels);
            let ns = g.num_subframes;
            let sub = state.subframe_counter;
            let level = levels[state.level_id as int];
            let done = sub == 0 && state.portal.anim_spec() == PortalAnimation::DoneCollapsing;
            let s0 = if done { g.sounds.change_music(Music::Menu) } else { g.sounds };
            let st1 = PlayingView {
                explosion: explosion_step(state.explosion, ns),
                portal: state.portal.after_update(sub),
                black_holes: state.black_holes.map_values(|h: BlackHole| h.after_update(sub)),
                ..state
            };
            let (st2, s2, progress2) = ship_phase(st1, level, keys, ns, s0, g.progress);
            assert(g2.progress == progress2);
            match st1.existence {
                ExistenceView::Exists { player, timer } => {
                    law_record_time_keeps_best(g.progress, state.level_id as int, timer);
                },
                _ => {},
            }
        },
        _ => {},
    }
}

} // verus!

verus! {

/// In the level select menu, Enter on a level's entry starts that level:
/// the game is then playing level `sel`, from its start, with the game
/// music; Enter on the entry after the last choosable level goes back to
/// the title menu. Nothing else about the game changes.
pub proof fn law_level_select_starts_the_chosen_level<T>(
    g: GameView,
    menu: LevelSelectMenu,
    key: Key,
    alt: bool,
    shift: bool,
    levels: Seq<Level<T>>,
)
    requires
        g.state == (StateView::LevelSelectMenu { menu }),
        key == Key::Enter || key == Key::NumpadEnter,
    ensures
        ({
            let sel = menu.selection_spec() as int;
            let (g2, out) = key_step(g, key, alt, shift, levels);
            let last = if g.progress.len() < NUM_LEVELS - 1 { g.progress.len() as int } else { NUM_LEVELS - 1 };
            &&& sel <= last ==> {
                &&& g2.state matches StateView::Playing { state: b }
                    && b.level_id == sel
                    && b == playing_start(levels[sel], sel as usize)
                &&& g2.sounds == g.sounds.play(AudioCommand::PlaySfx { sfx: Sfx::MenuClick }).change_music(Music::Game)
            }
            &&& sel == last + 1 ==> g2.state == (StateView::TitleMenu { menu: TitleMenu::at(0) })
            &&& g2.progress == g.progress
            &&& g2.pixel_size == g.pixel_size
            &&& g2.num_subframes == g.num_subframes
            &&& out == (KeyOutcome { quit: false, resize: false })
        }),
{
}

/// When a subframe ends the level being played (the flying ship reaches the
/// portal), the time it flew is recorded for that level and no other: the
/// level's best time becomes the better of the old one and the new one, or
/// the new one is added for the next level cleared for the first time, and
/// every other level's time stays. Best times change only in that way.
pub proof fn law_clearing_records_the_played_level<T>(g: GameView, a: PlayingView, keys: Seq<Key>, levels: Seq<Level<T>>)
    requires
        g.state == (StateView::Playing { state: a }),
    ensures
        ({
            let g2 = tick_step(g, keys, levels);
            let p = g.progress;
            let p2 = g2.progress;
            let i = a.level_id as int;
            &&& (a.existence matches ExistenceView::Exists { timer: t, .. } ==> (
                g2.state matches StateView::Playing { state: b } ==> (
                    b.existence matches ExistenceView::LevelEnded { final_time: f } ==> {
                        &&& f == t
                        &&& i < p.len() ==> {
                            &&& p2.len() == p.len()
                            &&& p2[i] <= p[i] && p2[i] <= t
                            &&& (p2[i] == p[i] || p2[i] == t)
                            &&& forall|j: int| 0 <= j < p.len() && j != i ==> p2[j] == p[j]
                        }
                        &&& i >= p.len() ==> p2 == p.push(t)
                    })))
            &&& (p2 != p ==> (a.existence matches ExistenceView::Exists { timer: t, .. } && {
                &&& i < p.len() ==> {
                    &&& p2.len() == p.len()
                    &&& p2[i] <= p[i] && p2[i] <= t
                    &&& (p2[i] == p[i] || p2[i] == t)
                    &&& forall|j: int| 0 <= j < p.len() && j != i ==> p2[j] == p[j]
                }
                &&& i >= p.len() ==> p2 == p.push(t)
            }))
        }),
{
    let ns = g.num_subframes;
    let sub = a.subframe_counter;
    let level = levels[a.level_id as int];
    let done = sub == 0 && a.portal.anim_spec() == PortalAnimation::DoneCollapsing;
    let s0 = if done { g.sounds.change_music(Music::Menu) } else { g.sounds };
    let st1 = PlayingView {
        explosion: explosion_step(a.explosion, ns),
        portal: a.portal.after_update(sub),
        black_holes: a.black_holes.map_values(|h: BlackHole| h.after_update(sub)),
        ..a
    };
    let (st2, s2, progress2) = ship_phase(st1, level, keys, ns, s0, g.progress);
    let g2 = tick_step(g, keys, levels);
    assert(g2.progress == progress2);
    assert(st1.existence == a.existence);
    assert(st1.level_id == a.level_id);
}

} // verus!

verus! {

/// While a level is played, each subframe moves the subframe counter on by
/// one round the full frame, and a flying ship that is still flying after
/// it has its timer counted up by one exactly when the counter went back
/// to 0 (a full frame, a fifth of a second, has passed).
pub proof fn law_tick_counts_subframes<T>(g: GameView, a: PlayingView, keys: Seq<Key>, levels: Seq<Level<T>>)
    requires
        g.state == (StateView::Playing { state: a }),
        tick_fits(g, keys, levels),
    ensures
        tick_step(g, keys, levels).state matches StateView::Playing { state: b } ==> {
            &&& b.subframe_counter == (a.subframe_counter + 1) % (g.num_subframes as int)
            &&& (a.existence matches ExistenceView::Exists { timer: t, .. } ==> (
                b.existence matches ExistenceView::Exists { timer: t2, .. } ==> t2 == (
                    if a.subframe_counter + 1 == g.num_subframes { t + 1 } else { t as int })))
        },
{
    let ns = g.num_subframes as int;
    let c = a.subframe_counter as int;
    if c + 1 == ns {
        lemma_fundamental_div_mod_converse(c + 1, ns, 1, 0);
    } else {
        lemma_fundamental_div_mod_converse(c + 1, ns, 0, c + 1);
    }
}

} // verus!

verus! {

/// One thing to draw for a level being played, in drawing order; depths are
/// in the sprites (level picture 1, ship 2, the rest 3, the time 4).
#[derive(Clone, Copy, PartialEq, Eq, Structural, Debug)]
pub enum SceneItem {
    /// The level's picture, with its top left corner at `dest`.
    LevelTiles { dest: Point2 },
    Ship { sprite: SpriteDraw },
    Flame { sprite: RotatedSpriteDraw },
    Portal { image: PortalImage, sprite: SpriteDraw },
    Explosion { sprite: SpriteDraw },
    BlackHole { sprite: SpriteDraw },
    /// The time shown at the top right (see `time_display`).
    Time { time: u64 },
}

/// What a level being played shows, in order: the level's picture, the ship
/// and its flame while it flies, the portal, the blast if any, the black
/// holes, and the time if one is shown; all seen from the camera.
pub open spec fn scene_spec(st: PlayingView) -> Seq<SceneItem> {
    let cam = st.camera;
    let ship = match st.existence {
        ExistenceView::Exists { player, .. } => seq![SceneItem::Ship { sprite: ship_sprite(player, cam) }] + match flame_sprite(player, cam) {
            Some(f) => seq![SceneItem::Flame { sprite: f }],
            None => Seq::empty(),
        },
        _ => Seq::empty(),
    };
    let (image, portal_sprite) = st.portal.sprite_spec(cam);
    let blast = match st.explosion {
        Some(e) => seq![SceneItem::Explosion { sprite: e.sprite_spec(cam) }],
        None => Seq::empty(),
    };
    let holes = st.black_holes.map_values(|h: BlackHole| SceneItem::BlackHole { sprite: h.sprite_spec(cam) });
    let time = match shown_time_spec(st) {
        Some(t) => seq![SceneItem::Time { time: t }],
        None => Seq::empty(),
    };
    seq![SceneItem::LevelTiles { dest: screen_pos(Point2 { x: 0, y: 0 }, cam) }] + ship
        + seq![SceneItem::Portal { image, sprite: portal_sprite }] + blast + holes + time
}

/// Whether the scene can be computed: every position seen from the camera
/// fits the pixel range, and the animations are in their ranges.
pub open spec fn scene_fits(st: PlayingView) -> bool {
    let cam = st.camera;
    &&& cam.x != i32::MIN && cam.y != i32::MIN
    &&& (st.existence matches ExistenceView::Exists { player, .. } ==> on_screen_fits(player.pos, cam))
    &&& st.portal.wf() && st.portal.rect_fits()
    &&& on_screen_fits(st.portal.rect_spec().origin.to_pixel_spec(), cam)
    &&& (st.explosion matches Some(e) ==> e.frame_spec() <= 3 && on_screen_fits(e.pos_spec(), cam))
    &&& forall|i: int| 0 <= i < st.black_holes.len() ==> {
        let h = #[trigger] st.black_holes[i];
        &&& h.rect_fits()
        &&& h.frame_spec() <= 3
        &&& on_screen_fits(h.rect_spec().origin.to_pixel_spec(), cam)
    }
}

/// Appends a scene item.
fn push_item(items: &mut Vec<SceneItem>, item: SceneItem)
    ensures
        final(items)@ == old(items)@.push(item),
{
    items.push(item);
}

impl PlayingState {
    /// Whether the scene can be computed, as `scene_fits` says.
    pub fn scene_fits_exec(&self) -> (r: bool)
        ensures
            r == scene_fits(self@),
    {
        let cam = self.camera;
        if cam.x == i32::MIN || cam.y == i32::MIN {
            return false;
        }
        match &self.maybe_player {
            PlayerExistence::Exists { player, .. } => {
                if !on_screen_fits_exec(player.pos(), cam) {
                    return false;
                }
            },
            _ => {},
        }
        if !self.portal.wf_exec() || !self.portal.rect_fits_exec() {
            return false;
        }
        if !on_screen_fits_exec(self.portal.rect().origin.to_pixel(), cam) {
            return false;
        }
        match self.maybe_explosion {
            Some(e) => {
                if e.frame() > 3 || !on_screen_fits_exec(e.pos(), cam) {
                    return false;
                }
            },
            None => {},
        }
        let n = self.black_holes.len();
        for i in 0..n
            invariant
                n == self.black_holes@.len(),
                cam == self.camera,
                forall|j: int| 0 <= j < i ==> {
                    let h = #[trigger] self.black_holes@[j];
                    &&& h.rect_fits()
                    &&& h.frame_spec() <= 3
                    &&& on_screen_fits(h.rect_spec().origin.to_pixel_spec(), cam)
                },
        {
            let h = self.black_holes[i];
            assert(self@.black_holes[i as int] == h);
            if !h.rect_fits_exec() || h.frame() > 3 {
                return false;
            }
            if !on_screen_fits_exec(h.rect().origin.to_pixel(), cam) {
                return false;
            }
        }
        true
    }

    /// What the level shows, as `scene_spec` says.
    pub fn scene(&self) -> (r: Vec<SceneItem>)
        requires
            scene_fits(self@),
        ensures
            r@ == scene_spec(self@),
    {
        let cam = self.camera;
        let ghost st = self@;
        let mut items: Vec<SceneItem> = Vec::new();
        push_item(&mut items, SceneItem::LevelTiles { dest: level_dest(cam) });
        let ghost after_tiles = items@;
        match &self.maybe_player {
            PlayerExistence::Exists { player, .. } => {
                push_item(&mut items, SceneItem::Ship { sprite: player.sprite(cam) });
                match player.flame_sprite(cam) {
                    Some(f) => push_item(&mut items, SceneItem::Flame { sprite: f }),
                    None => {},
                }
            },
            _ => {},
        }
        let (image, sprite) = self.portal.sprite(cam);
        push_item(&mut items, SceneItem::Portal { image, sprite });
        match self.maybe_explosion {
            Some(e) => push_item(&mut items, SceneItem::Explosion { sprite: e.sprite(cam) }),
            None => {},
        }
        let ghost before_holes = items@;
        let n = self.black_holes.len();
        for i in 0..n
            invariant
                n == self.black_holes@.len(),
                cam == self.camera,
                scene_fits(self@),
                items@ == before_holes + self.black_holes@.take(i as int).map_values(
                    |h: BlackHole| SceneItem::BlackHole { sprite: h.sprite_spec(cam) },
                ),
        {
            let h = self.black_holes[i];
            assert(self@.black_holes[i as int] == h);
            push_item(&mut items, SceneItem::BlackHole { sprite: h.sprite(cam) });
            assert(self.black_holes@.take(i + 1) =~= self.black_holes@.take(i as int).push(h));
            assert(items@ =~= before_holes + self.black_holes@.take(i + 1).map_values(
                |h: BlackHole| SceneItem::BlackHole { sprite: h.sprite_spec(cam) },
            ));
        }
        assert(self.black_holes@.take(n as int) =~= self.black_holes@);
        match self.shown_time() {
            Some(t) => push_item(&mut items, SceneItem::Time { time: t }),
            None => {},
        }
        assert(items@ =~= scene_spec(st));
        items
    }
}

} // verus!
