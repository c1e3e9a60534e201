use vstd::prelude::*;
use vstd::string::StringExecFns;
use vstd::string::StrSliceExecFns;
use crate::keys::Key;
use crate::sounds::{AllSounds, AudioCommand, Sfx, SoundState};
use crate::units::NUM_LEVELS;
use crate::text::{decimal_digits, decimal_string, time_string, time_text};
use crate::ui::{push_op, write_big_op, write_if, write_op, ops_view, write_view, GridOp, GridOpView};

verus! {

/// A tile of the letter image: halves of big letters, small letters, digits
/// and a few signs.
#[derive(Clone, Copy, PartialEq, Eq, Structural, Debug)]
pub enum LetterTile {
    BigTop { i: u8 },
    BigBottom { i: u8 },
    Small { i: u8 },
    Digit { n: u8 },
    Dot,
    RightArrow,
    LeftArrow,
    Colon,
    Point,
    Empty,
}

/// The small-letter tile that a character is written with: `-` a dot, `>`
/// and `<` arrows, `:`, `.`, a space an empty tile, digits and lower-case
/// letters their own tiles; other characters have none.
pub open spec fn letter_tile_of(c: char) -> Option<LetterTile> {
    if c == '-' {
        Some(LetterTile::Dot)
    } else if c == '>' {
        Some(LetterTile::RightArrow)
    } else if c == '<' {
        Some(LetterTile::LeftArrow)
    } else if c == ':' {
        Some(LetterTile::Colon)
    } else if c == '.' {
        Some(LetterTile::Point)
    } else if c == ' ' {
        Some(LetterTile::Empty)
    } else if '0' <= c <= '9' {
        Some(LetterTile::Digit { n: (c as u32 - '0' as u32) as u8 })
    } else if 'a' <= c <= 'z' {
        Some(LetterTile::Small { i: (c as u32 - 'a' as u32) as u8 })
    } else {
        None
    }
}

impl LetterTile {
    /// Column and row of the tile in the letter image.
    pub open spec fn atlas_pos_spec(self) -> (u8, u8) {
        match self {
            LetterTile::BigTop { i } => (i, 0),
            LetterTile::BigBottom { i } => (i, 1),
            LetterTile::Small { i } => (i, 2),
            LetterTile::Digit { n } => (n, 3),
            LetterTile::Dot => (10, 3),
            LetterTile::RightArrow => (11, 3),
            LetterTile::LeftArrow => (12, 3),
            LetterTile::Colon => (13, 3),
            LetterTile::Point => (14, 3),
            LetterTile::Empty => (15, 3),
        }
    }

    /// Column and row of the tile in the letter image.
    pub fn atlas_pos(&self) -> (r: [u8; 2])
        ensures
            r@ == seq![self.atlas_pos_spec().0, self.atlas_pos_spec().1],
    {
        let (x, y): (u8, u8) = match *self {
            LetterTile::BigTop { i } => (i, 0),
            LetterTile::BigBottom { i } => (i, 1),
            LetterTile::Small { i } => (i, 2),
            LetterTile::Digit { n } => (n, 3),
            LetterTile::Dot => (10, 3),
            LetterTile::RightArrow => (11, 3),
            LetterTile::LeftArrow => (12, 3),
            LetterTile::Colon => (13, 3),
            LetterTile::Point => (14, 3),
            LetterTile::Empty => (15, 3),
        };
        let r = [x, y];
        assert(r@ =~= seq![x, y]);
        r
    }

    /// Whether `c` can be written in small letters.
    pub fn is_writable(c: char) -> (r: bool)
        ensures
            r == (letter_tile_of(c) is Some),
    {
        c == '-' || c == '>' || c == '<' || c == ':' || c == '.' || c == ' ' || ('0' <= c && c <= '9')
            || ('a' <= c && c <= 'z')
    }

    /// The tile that `c` is written with.
    pub fn from_char(c: char) -> (r: LetterTile)
        requires
            letter_tile_of(c) is Some,
        ensures
            letter_tile_of(c) == Some(r),
    {
        if c == '-' {
            LetterTile::Dot
        } else if c == '>' {
            LetterTile::RightArrow
        } else if c == '<' {
            LetterTile::LeftArrow
        } else if c == ':' {
            LetterTile::Colon
        } else if c == '.' {
            LetterTile::Point
        } else if c == ' ' {
            LetterTile::Empty
        } else if '0' <= c && c <= '9' {
            LetterTile::Digit { n: (c as u32 - '0' as u32) as u8 }
        } else {
            LetterTile::Small { i: (c as u32 - 'a' as u32) as u8 }
        }
    }
}

/// A big letter: one tile wide and two tall.
#[derive(Clone, Copy, PartialEq, Eq, Structural, Debug)]
pub enum BigLetter {
    Letter { i: u8 },
    Space,
}

/// The big letter that a character is written with: a space or a
/// lower-case letter; other characters have none.
pub open spec fn big_letter_of(c: char) -> Option<BigLetter> {
    if c == ' ' {
        Some(BigLetter::Space)
    } else if 'a' <= c <= 'z' {
        Some(BigLetter::Letter { i: (c as u32 - 'a' as u32) as u8 })
    } else {
        None
    }
}

impl BigLetter {
    /// Width and height in tiles.
    pub fn dimensions(&self) -> (r: [u8; 2])
        ensures
            r@ == seq![1u8, 2u8],
    {
        let r = [1u8, 2u8];
        assert(r@ =~= seq![1u8, 2u8]);
        r
    }

    /// The tile of the letter at column `x`, row `y`: top and bottom halves,
    /// both empty for a space.
    pub fn sub(&self, x: u8, y: u8) -> (r: LetterTile)
        requires
            x == 0,
            y <= 1,
        ensures
            r == match *self {
                BigLetter::Letter { i } => if y == 0 { LetterTile::BigTop { i } } else { LetterTile::BigBottom { i } },
                BigLetter::Space => LetterTile::Empty,
            },
    {
        match *self {
            BigLetter::Letter { i } => if y == 0 { LetterTile::BigTop { i } } else { LetterTile::BigBottom { i } },
            BigLetter::Space => LetterTile::Empty,
        }
    }

    /// Whether `c` can be written in big letters.
    pub fn is_writable(c: char) -> (r: bool)
        ensures
            r == (big_letter_of(c) is Some),
    {
        c == ' ' || ('a' <= c && c <= 'z')
    }

    /// The big letter that `c` is written with.
    pub fn from_char(c: char) -> (r: BigLetter)
        requires
            big_letter_of(c) is Some,
        ensures
            big_letter_of(c) == Some(r),
    {
        if c == ' ' {
            BigLetter::Space
        } else {
            BigLetter::Letter { i: (c as u32 - 'a' as u32) as u8 }
        }
    }
}

/// Whether `k` moves up in a menu.
pub open spec fn is_up(k: Key) -> bool {
    k == Key::ArrowUp || k == Key::KeyW
}

/// Whether `k` moves down in a menu.
pub open spec fn is_down(k: Key) -> bool {
    k == Key::ArrowDown || k == Key::KeyS
}

/// Whether `k` turns a setting down.
pub open spec fn is_left(k: Key) -> bool {
    k == Key::ArrowLeft || k == Key::KeyA
}

/// Whether `k` turns a setting up.
pub open spec fn is_right(k: Key) -> bool {
    k == Key::ArrowRight || k == Key::KeyD
}

/// Whether `k` chooses the selected entry.
pub open spec fn is_enter(k: Key) -> bool {
    k == Key::Enter || k == Key::NumpadEnter
}

/// What the title menu asks of the game after a key.
#[derive(Clone, Copy, PartialEq, Eq, Structural, Debug)]
pub enum TitleMenuResponse {
    Nothing,
    /// Start playing.
    ToGame,
    /// Quit the program.
    Quit,
    /// The pixel size changed: the window is to be resized to it.
    Resize,
}

/// The title menu. Its entries, top to bottom: play (0), sound (1), pixel
/// size (2), subframes (3) and exit (4).
pub struct TitleMenu {
    selection: u8,
}

/// The sound setting as a step from 0 to 3: all on, effects only, music
/// only, all muted.
pub open spec fn sound_level(s: SoundState) -> int {
    match (s.sfx_muted, s.music_muted) {
        (false, false) => 0,
        (false, true) => 1,
        (true, false) => 2,
        (true, true) => 3,
    }
}

/// The sound state after the sound setting is turned down a step.
pub open spec fn sound_left(s: SoundState) -> SoundState {
    match (s.sfx_muted, s.music_muted) {
        (false, false) => s,
        (false, true) => s.set_music_muted(false).play(AudioCommand::PlaySfx { sfx: Sfx::MenuClick }),
        (true, false) => SoundState { sfx_muted: false, ..s }.set_music_muted(true).play(
            AudioCommand::PlaySfx { sfx: Sfx::MenuClick },
        ),
        (true, true) => s.set_music_muted(false),
    }
}

/// The sound state after the sound setting is turned up a step.
pub open spec fn sound_right(s: SoundState) -> SoundState {
    match (s.sfx_muted, s.music_muted) {
        (false, false) => s.set_music_muted(true).play(AudioCommand::PlaySfx { sfx: Sfx::MenuClick }),
        (false, true) => SoundState { sfx_muted: true, ..s }.set_music_muted(false),
        (true, false) => s.set_music_muted(true),
        (true, true) => s,
    }
}

/// The outcome of a key in the title menu: selection, response, pixel size,
/// subframes and sound state.
pub open spec fn title_step(sel: int, key: Key, ps: int, ns: int, s: SoundState) -> (
    int,
    TitleMenuResponse,
    int,
    int,
    SoundState,
) {
    let click = AudioCommand::PlaySfx { sfx: Sfx::MenuClick };
    let nav = AudioCommand::PlaySfx { sfx: Sfx::MenuNavigate };
    if is_up(key) {
        (if sel == 0 { 4 } else { sel - 1 }, TitleMenuResponse::Nothing, ps, ns, s.play(nav))
    } else if is_down(key) {
        (if sel == 4 { 0 } else { sel + 1 }, TitleMenuResponse::Nothing, ps, ns, s.play(nav))
    } else if sel == 0 && is_enter(key) {
        (sel, TitleMenuResponse::ToGame, ps, ns, s.play(click))
    } else if sel == 4 && is_enter(key) {
        (sel, TitleMenuResponse::Quit, ps, ns, s)
    } else if sel == 1 && is_left(key) {
        (sel, TitleMenuResponse::Nothing, ps, ns, sound_left(s))
    } else if sel == 1 && is_right(key) {
        (sel, TitleMenuResponse::Nothing, ps, ns, sound_right(s))
    } else if sel == 2 && is_left(key) && ps != 1 {
        (sel, TitleMenuResponse::Resize, ps - 1, ns, s.play(click))
    } else if sel == 2 && is_right(key) && ps != 15 {
        (sel, TitleMenuResponse::Resize, ps + 1, ns, s.play(click))
    } else if sel == 3 && is_left(key) && ns != 1 {
        (sel, TitleMenuResponse::Nothing, ps, ns - 1, s.play(click))
    } else if sel == 3 && is_right(key) && ns != 12 {
        (sel, TitleMenuResponse::Nothing, ps, ns + 1, s.play(click))
    } else {
        (sel, TitleMenuResponse::Nothing, ps, ns, s)
    }
}

/// Whether `title_step` keeps the pixel size and the subframes in a byte:
/// turning either down from 0 or up from 255 would leave it.
pub open spec fn title_step_fits(sel: int, key: Key, ps: int, ns: int) -> bool {
    &&& !(sel == 2 && is_left(key) && ps == 0)
    &&& !(sel == 2 && is_right(key) && ps == 255)
    &&& !(sel == 3 && is_left(key) && ns == 0)
    &&& !(sel == 3 && is_right(key) && ns == 255)
}

/// The name of a sound setting step.
pub open spec fn sound_label(level: int) -> Seq<char> {
    if level == 0 {
        "unmuted"@
    } else if level == 1 {
        "sfx only"@
    } else if level == 2 {
        "music only"@
    } else {
        "muted"@
    }
}

/// The value written on the title menu's sound line names the switches:
/// "unmuted" exactly when neither the effects nor the music are muted,
/// "muted" exactly when both are, "sfx only" when only the music is muted
/// and "music only" when only the effects are.
pub proof fn law_sound_line_names_the_switches(sel: int, s: SoundState, ps: u8, ns: u8)
    ensures
        ({
            let value = title_text_ops(sel, sound_level(s), ps, ns)[18];
            &&& value == GridOpView::Write { text: "unmuted"@ } <==> !s.sfx_muted && !s.music_muted
            &&& value == GridOpView::Write { text: "muted"@ } <==> s.sfx_muted && s.music_muted
            &&& value == GridOpView::Write { text: "sfx only"@ } <==> !s.sfx_muted && s.music_muted
            &&& value == GridOpView::Write { text: "music only"@ } <==> s.sfx_muted && !s.music_muted
        }),
{
    reveal_strlit("unmuted");
    reveal_strlit("muted");
    reveal_strlit("sfx only");
    reveal_strlit("music only");
    let ops = title_text_ops(sel, sound_level(s), ps, ns);
    let head = seq![
        GridOpView::Start { x: 1, y: 1 },
        GridOpView::WriteBig { text: "space game"@ },
        GridOpView::SetX { x: 20 },
        GridOpView::WriteBig { text: "alex marion"@ },
    ] + entry_head_ops(4, sel == 0, "play"@) + action_tail_ops(sel == 0) + entry_head_ops(3, sel == 1, "sound"@);
    let level = sound_level(s);
    let tail = setting_tail_ops(sel == 1, level != 0, sound_label(level), level != 3);
    assert(head.len() == 16);
    assert((head + tail)[18] == GridOpView::Write { text: sound_label(level) });
    assert(ops[18] == GridOpView::Write { text: sound_label(level) });
    assert("unmuted"@.len() == 7 && "muted"@.len() == 5 && "sfx only"@.len() == 8);
    assert("unmuted"@ != "muted"@);
    assert("unmuted"@ != "sfx only"@);
    assert("unmuted"@ != "music only"@);
    assert("muted"@ != "sfx only"@);
    assert("muted"@ != "music only"@);
    assert("sfx only"@ != "music only"@);
}

/// The start of an entry line, `dy` rows below the previous one: a dash if
/// it is selected, then its name from column 3.
pub open spec fn entry_head_ops(dy: u8, selected: bool, name: Seq<char>) -> Seq<GridOpView> {
    seq![
        GridOpView::SetX { x: 1 },
        GridOpView::MoveY { dy },
        write_view(if selected { "-"@ } else { ""@ }),
        GridOpView::SetX { x: 3 },
        write_view(name),
    ]
}

/// The end of an action line: "enter" at column 17 if it is selected.
pub open spec fn action_tail_ops(selected: bool) -> Seq<GridOpView> {
    seq![GridOpView::SetX { x: 17 }, write_view(if selected { "enter"@ } else { ""@ })]
}

/// The end of a setting line: from column 16, `<` if it is selected and can
/// be turned down (a space otherwise), its value, and `>` if it is selected
/// and can be turned up.
pub open spec fn setting_tail_ops(selected: bool, can_lower: bool, value: Seq<char>, can_raise: bool) -> Seq<GridOpView> {
    seq![
        GridOpView::SetX { x: 16 },
        write_view(if selected && can_lower { "<"@ } else { " "@ }),
        write_view(value),
        write_view(if selected && can_raise { ">"@ } else { ""@ }),
    ]
}

/// The text of the title menu with entry `sel` selected: the title and the
/// author in big letters, then the five entry lines.
pub open spec fn title_text_ops(sel: int, level: int, ps: u8, ns: u8) -> Seq<GridOpView> {
    seq![
        GridOpView::Start { x: 1, y: 1 },
        GridOpView::WriteBig { text: "space game"@ },
        GridOpView::SetX { x: 20 },
        GridOpView::WriteBig { text: "alex marion"@ },
    ]
        + entry_head_ops(4, sel == 0, "play"@) + action_tail_ops(sel == 0)
        + entry_head_ops(3, sel == 1, "sound"@)
        + setting_tail_ops(sel == 1, level != 0, sound_label(level), level != 3)
        + entry_head_ops(2, sel == 2, "pixel size"@)
        + setting_tail_ops(sel == 2, ps != 1, decimal_digits(ps as nat), ps != 15)
        + entry_head_ops(2, sel == 3, "subframes"@)
        + setting_tail_ops(sel == 3, ns != 1, decimal_digits(ns as nat), ns != 12)
        + entry_head_ops(3, sel == 4, "exit"@) + action_tail_ops(sel == 4)
}

/// Appends the steps of `more` to `ops`.
fn append_ops(ops: &mut Vec<GridOp>, more: Vec<GridOp>)
    ensures
        ops_view(final(ops)@) == ops_view(old(ops)@) + ops_view(more@),
{
    let ghost a = ops@;
    let mut more = more;
    let ghost b = more@;
    ops.append(&mut more);
    assert(ops_view(ops@) =~= ops_view(a) + ops_view(b));
}

/// Computes `entry_head_ops`.
fn entry_head(dy: u8, selected: bool, name: &str) -> (r: Vec<GridOp>)
    ensures
        ops_view(r@) == entry_head_ops(dy, selected, name@),
{
    let mut ops: Vec<GridOp> = Vec::new();
    push_op(&mut ops, GridOp::SetX { x: 1 });
    push_op(&mut ops, GridOp::MoveY { dy });
    push_op(&mut ops, write_if(selected, "-"));
    push_op(&mut ops, GridOp::SetX { x: 3 });
    push_op(&mut ops, write_op(name));
    assert(ops_view(ops@) =~= entry_head_ops(dy, selected, name@));
    ops
}

/// Computes `action_tail_ops`.
fn action_tail(selected: bool) -> (r: Vec<GridOp>)
    ensures
        ops_view(r@) == action_tail_ops(selected),
{
    let mut ops: Vec<GridOp> = Vec::new();
    push_op(&mut ops, GridOp::SetX { x: 17 });
    push_op(&mut ops, write_if(selected, "enter"));
    assert(ops_view(ops@) =~= action_tail_ops(selected));
    ops
}

/// Computes `setting_tail_ops`.
fn setting_tail(selected: bool, can_lower: bool, value: String, can_raise: bool) -> (r: Vec<GridOp>)
    ensures
        ops_view(r@) == setting_tail_ops(selected, can_lower, value@, can_raise),
{
    let mut ops: Vec<GridOp> = Vec::new();
    push_op(&mut ops, GridOp::SetX { x: 16 });
    push_op(&mut ops, if selected && can_lower { write_op("<") } else { write_op(" ") });
    let ghost v = value@;
    push_op(&mut ops, GridOp::Write { text: value });
    push_op(&mut ops, write_if(selected && can_raise, ">"));
    assert(ops_view(ops@) =~= setting_tail_ops(selected, can_lower, v, can_raise));
    ops
}

impl TitleMenu {
    /// The steps that write the title menu onto the screen's letter grid.
    pub fn text_ops(&self, sounds: &AllSounds, pixel_size: u8, number_subframes: u8) -> (r: Vec<GridOp>)
        ensures
            ops_view(r@) == title_text_ops(
                self.selection_spec() as int,
                sound_level(sounds@),
                pixel_size,
                number_subframes,
            ),
    {
        let s = self.selection;
        let ps = pixel_size;
        let ns = number_subframes;
        let sfx = sounds.sfx_muted();
        let music = sounds.music_muted();
        let (sound_n, sound_text): (u8, &str) = if !sfx && !music {
            (0, "unmuted")
        } else if !sfx && music {
            (1, "sfx only")
        } else if sfx && !music {
            (2, "music only")
        } else {
            (3, "muted")
        };
        assert(sound_n == sound_level(sounds@));
        assert(sound_text@ == sound_label(sound_n as int));
        let mut ops: Vec<GridOp> = Vec::new();
        push_op(&mut ops, GridOp::Start { x: 1, y: 1 });
        push_op(&mut ops, write_big_op("space game"));
        push_op(&mut ops, GridOp::SetX { x: 20 });
        push_op(&mut ops, write_big_op("alex marion"));
        assert(ops_view(ops@) =~= seq![
            GridOpView::Start { x: 1, y: 1 },
            GridOpView::WriteBig { text: "space game"@ },
            GridOpView::SetX { x: 20 },
            GridOpView::WriteBig { text: "alex marion"@ },
        ]);
        let sound_value = String::from_str(sound_text);
        let ps_value = decimal_string(ps as u64);
        let ns_value = decimal_string(ns as u64);
        assert(sound_value@ == sound_label(sound_level(sounds@)));
        assert(ps_value@ == decimal_digits(ps as nat));
        assert(ns_value@ == decimal_digits(ns as nat));
        append_ops(&mut ops, entry_head(4, s == 0, "play"));
        append_ops(&mut ops, action_tail(s == 0));
        append_ops(&mut ops, entry_head(3, s == 1, "sound"));
        append_ops(&mut ops, setting_tail(s == 1, sound_n != 0, sound_value, sound_n != 3));
        append_ops(&mut ops, entry_head(2, s == 2, "pixel size"));
        append_ops(&mut ops, setting_tail(s == 2, ps != 1, ps_value, ps != 15));
        append_ops(&mut ops, entry_head(2, s == 3, "subframes"));
        append_ops(&mut ops, setting_tail(s == 3, ns != 1, ns_value, ns != 12));
        append_ops(&mut ops, entry_head(3, s == 4, "exit"));
        append_ops(&mut ops, action_tail(s == 4));
        ops
    }

    /// The selected entry.
    pub closed spec fn selection_spec(&self) -> u8 {
        self.selection
    }

    /// The selection is one of the five entries.
    #[verifier::type_invariant]
    spec fn selection_in_range(self) -> bool {
        self.selection <= 4
    }

    /// The title menu with entry `sel` selected.
    pub closed spec fn at(sel: u8) -> TitleMenu {
        TitleMenu { selection: sel }
    }

    /// `at(sel)` is the title menu whose selected entry is `sel`, and the
    /// only one.
    pub proof fn lemma_at(sel: u8)
        ensures
            TitleMenu::at(sel).selection_spec() == sel,
            forall|m: TitleMenu| #[trigger] m.selection_spec() == sel ==> m == TitleMenu::at(sel),
    {
    }

    /// The title menu with "play" selected.
    pub fn new() -> (r: TitleMenu)
        ensures
            r == TitleMenu::at(0),
            r.selection_spec() == 0,
    {
        TitleMenu { selection: 0 }
    }

    /// The selected entry, 0 to 4.
    pub fn selection(&self) -> (r: u8)
        ensures
            r == self.selection_spec(),
            r <= 4,
    {
        proof { use_type_invariant(self); }
        self.selection
    }

    /// Reacts to a key: up and down move the selection round the entries;
    /// enter on "play" starts the game and on "exit" quits; left and right
    /// turn the selected setting (sound, pixel size from 1 to 15, subframes
    /// from 1 to 12).
    pub fn update(
        &mut self,
        sounds: &mut AllSounds,
        key: Key,
        pixel_size: &mut u8,
        number_subframes: &mut u8,
    ) -> (r: TitleMenuResponse)
        requires
            title_step_fits(old(self).selection_spec() as int, key, *old(pixel_size) as int, *old(number_subframes) as int),
        ensures
            ({
                let (sel, resp, ps, ns, s) = title_step(
                    old(self).selection_spec() as int,
                    key,
                    *old(pixel_size) as int,
                    *old(number_subframes) as int,
                    old(sounds)@,
                );
                &&& final(self).selection_spec() == sel
                &&& *final(self) == TitleMenu::at(sel as u8)
                &&& r == resp
                &&& *final(pixel_size) == ps
                &&& *final(number_subframes) == ns
                &&& final(sounds)@ == s
            }),
            final(self).selection_spec() <= 4,
    {
        proof { use_type_invariant(&*self); }
        let n = self.selection;
        let up = key == Key::ArrowUp || key == Key::KeyW;
        let down = key == Key::ArrowDown || key == Key::KeyS;
        let left = key == Key::ArrowLeft || key == Key::KeyA;
        let right = key == Key::ArrowRight || key == Key::KeyD;
        let enter = key == Key::Enter || key == Key::NumpadEnter;
        if up {
            self.selection = if n == 0 { 4 } else { n - 1 };
            sounds.play_menu_navigate();
        } else if down {
            self.selection = if n == 4 { 0 } else { n + 1 };
            sounds.play_menu_navigate();
        } else if n == 0 && enter {
            sounds.play_menu_click();
            return TitleMenuResponse::ToGame;
        } else if n == 4 && enter {
            return TitleMenuResponse::Quit;
        } else if n == 1 && left {
            let sfx = sounds.sfx_muted();
            let music = sounds.music_muted();
            if !sfx && music {
                sounds.set_music_muted(false);
                sounds.play_menu_click();
            } else if sfx && !music {
                sounds.set_sfx_muted(false);
                sounds.set_music_muted(true);
                sounds.play_menu_click();
            } else if sfx && music {
                sounds.set_music_muted(false);
            }
        } else if n == 1 && right {
            let sfx = sounds.sfx_muted();
            let music = sounds.music_muted();
            if !sfx && !music {
                sounds.set_music_muted(true);
                sounds.play_menu_click();
            } else if !sfx && music {
                sounds.set_sfx_muted(true);
                sounds.set_music_muted(false);
            } else if sfx && !music {
                sounds.set_music_muted(true);
            }
        } else if n == 2 && left && *pixel_size != 1 {
            *pixel_size = *pixel_size - 1;
            sounds.play_menu_click();
            return TitleMenuResponse::Resize;
        } else if n == 2 && right && *pixel_size != 15 {
            *pixel_size = *pixel_size + 1;
            sounds.play_menu_click();
            return TitleMenuResponse::Resize;
        } else if n == 3 && left && *number_subframes != 1 {
            *number_subframes = *number_subframes - 1;
            sounds.play_menu_click();
        } else if n == 3 && right && *number_subframes != 12 {
            *number_subframes = *number_subframes + 1;
            sounds.play_menu_click();
        }
        TitleMenuResponse::Nothing
    }
}

/// What the level select menu asks of the game after a key.
#[derive(Clone, Copy, PartialEq, Eq, Structural, Debug)]
pub enum LSMUpdateResponse {
    /// Play level `level_id` (counted from 0).
    ToLevel { level_id: usize },
    /// Back to the title menu.
    Back,
    Nothing,
}

/// The level select menu: the levels reached so far (at most all of them),
/// then "back".
pub struct LevelSelectMenu {
    selection: u8,
}

/// Index of the last level that can be chosen when `progress_len` levels
/// have been cleared: the next one, or the last level once all are cleared.
pub open spec fn last_choosable(progress_len: int) -> int {
    if progress_len < NUM_LEVELS - 1 { progress_len } else { NUM_LEVELS - 1 }
}

/// The outcome of a key in the level select menu: selection, response and
/// sound state. Entry `p + 1`, just after the last choosable level `p`, is
/// "back".
pub open spec fn level_select_step(sel: int, key: Key, progress_len: int, s: SoundState) -> (
    int,
    LSMUpdateResponse,
    SoundState,
) {
    let p = last_choosable(progress_len);
    if is_up(key) {
        (if sel == 0 { p + 1 } else { sel - 1 }, LSMUpdateResponse::Nothing, s.play(AudioCommand::PlaySfx { sfx: Sfx::MenuNavigate }))
    } else if is_down(key) {
        (if sel == p + 1 { 0 } else { sel + 1 }, LSMUpdateResponse::Nothing, s.play(AudioCommand::PlaySfx { sfx: Sfx::MenuNavigate }))
    } else if is_enter(key) {
        (
            sel,
            if sel == p + 1 { LSMUpdateResponse::Back } else { LSMUpdateResponse::ToLevel { level_id: sel as usize } },
            s.play(AudioCommand::PlaySfx { sfx: Sfx::MenuClick }),
        )
    } else {
        (sel, LSMUpdateResponse::Nothing, s)
    }
}

/// Sum of a sequence of counts.
pub open spec fn seq_sum(s: Seq<u64>) -> int
    decreases s.len(),
{
    if s.len() == 0 { 0 } else { seq_sum(s.drop_last()) + s.last() }
}

/// A prefix of a sequence of counts sums to no more than the whole.
proof fn lemma_seq_sum_prefix(s: Seq<u64>, k: int)
    requires
        0 <= k <= s.len(),
    ensures
        0 <= seq_sum(s.take(k)) <= seq_sum(s),
    decreases s.len() - k,
{
    if k < s.len() {
        lemma_seq_sum_prefix(s, k + 1);
        assert(s.take(k + 1).drop_last() =~= s.take(k));
        assert(s.take(k + 1).last() == s[k]);
        lemma_seq_sum_nonneg(s.take(k));
    } else {
        assert(s.take(k) =~= s);
        lemma_seq_sum_nonneg(s);
    }
}

/// A sum of counts is never negative.
proof fn lemma_seq_sum_nonneg(s: Seq<u64>)
    ensures
        seq_sum(s) >= 0,
    decreases s.len(),
{
    if s.len() > 0 {
        lemma_seq_sum_nonneg(s.drop_last());
    }
}

/// The line of level `i` (counted from 0) in the level select menu: its
/// number from column 3, then its best time ending at column 12, or "none"
/// at column 9 if it has not been cleared.
pub open spec fn level_row_ops(i: int, progress: Seq<u64>) -> Seq<GridOpView> {
    let y = (5 + i) as u8;
    seq![GridOpView::Start { x: 3, y }, write_view(decimal_digits((i + 1) as nat))] + if i < progress.len() {
        let t = time_text(progress[i] as nat);
        seq![GridOpView::Start { x: (13 - t.len()) as u8, y }, write_view(t)]
    } else {
        seq![GridOpView::Start { x: 9, y }, write_view("none"@)]
    }
}

/// The label of the sum of all best times.
pub open spec fn sum_label(progress: Seq<u64>) -> Seq<char> {
    "sum:"@ + time_text(seq_sum(progress) as nat)
}

/// The text of the level select menu with entry `sel` selected: the title,
/// a line per choosable level, a dash and "enter" on the selected level,
/// "back" two lines below the last level, and once every level is cleared
/// the sum of the best times, ending at column 29 of the top line.
pub open spec fn level_select_text_ops(sel: int, progress: Seq<u64>) -> Seq<GridOpView> {
    let p = last_choosable(progress.len() as int);
    seq![GridOpView::Start { x: 1, y: 1 }, GridOpView::WriteBig { text: "level select"@ }]
        + Seq::new((p + 1) as nat, |i: int| level_row_ops(i, progress)).flatten()
        + (if sel != p + 1 {
            seq![
                GridOpView::Start { x: 1, y: (5 + sel) as u8 },
                write_view("-"@),
                GridOpView::SetX { x: 17 },
                write_view("enter"@),
            ]
        } else {
            Seq::empty()
        })
        + seq![
            GridOpView::Start { x: 1, y: (7 + p) as u8 },
            write_view(if sel == p + 1 { "-"@ } else { ""@ }),
            GridOpView::SetX { x: 3 },
            write_view("back"@),
            GridOpView::SetX { x: 17 },
            write_view(if sel == p + 1 { "enter"@ } else { ""@ }),
        ]
        + (if progress.len() == NUM_LEVELS {
            seq![GridOpView::Start { x: (30 - sum_label(progress).len()) as u8, y: 1 }, write_view(sum_label(progress))]
        } else {
            Seq::empty()
        })
}

/// Whether the level select menu can be written for `progress`: every time
/// shown fits in a `u64` in tenths of a second and in the space before
/// column 13 (the sum, before column 30), and the selected line is a row.
pub open spec fn level_select_text_fits(sel: int, progress: Seq<u64>) -> bool {
    let p = last_choosable(progress.len() as int);
    &&& forall|i: int| 0 <= i <= p && i < progress.len() ==> {
        &&& (#[trigger] progress[i]) * 10 <= u64::MAX
        &&& time_text(progress[i] as nat).len() <= 13
    }
    &&& (sel != p + 1 ==> 5 + sel <= 255)
    &&& (progress.len() == NUM_LEVELS ==> {
        &&& seq_sum(progress) * 10 <= u64::MAX
        &&& sum_label(progress).len() <= 30
    })
}

/// Computes `level_row_ops`.
fn level_row(i: u8, progress: &[u64]) -> (r: Vec<GridOp>)
    requires
        i <= 7,
        i < progress@.len() ==> progress@[i as int] * 10 <= u64::MAX
            && time_text(progress@[i as int] as nat).len() <= 13,
    ensures
        ops_view(r@) == level_row_ops(i as int, progress@),
{
    let y = 5 + i;
    let mut ops: Vec<GridOp> = Vec::new();
    push_op(&mut ops, GridOp::Start { x: 3, y });
    push_op(&mut ops, GridOp::Write { text: decimal_string((i + 1) as u64) });
    if (i as usize) < progress.len() {
        let t = time_string(progress[i as usize]);
        let len = t.as_str().unicode_len();
        let ghost tv = t@;
        push_op(&mut ops, GridOp::Start { x: 13 - len as u8, y });
        push_op(&mut ops, GridOp::Write { text: t });
        assert(ops_view(ops@) =~= level_row_ops(i as int, progress@));
    } else {
        push_op(&mut ops, GridOp::Start { x: 9, y });
        push_op(&mut ops, write_op("none"));
        assert(ops_view(ops@) =~= level_row_ops(i as int, progress@));
    }
    ops
}

/// The length of `time_text(t)`, which is ASCII: the digits of the whole
/// seconds, the point and one digit.
fn time_text_len(t: u64) -> (r: usize)
    requires
        t * 10 <= u64::MAX,
    ensures
        r == time_text(t as nat).len(),
{
    let s = time_string(t);
    s.as_str().unicode_len()
}

impl LevelSelectMenu {
    /// Whether the level select menu can be written for `progress`, as
    /// `level_select_text_fits` says.
    pub fn text_fits(&self, progress: &[u64]) -> (r: bool)
        ensures
            r == level_select_text_fits(self.selection_spec() as int, progress@),
    {
        let s = self.selection;
        let p: u8 = if progress.len() < NUM_LEVELS - 1 { progress.len() as u8 } else { (NUM_LEVELS - 1) as u8 };
        let mut i: u8 = 0;
        while i <= p
            invariant
                p <= 7,
                p == last_choosable(progress@.len() as int),
                i <= p + 1,
                forall|j: int| 0 <= j < i && j < progress@.len() ==> {
                    &&& (#[trigger] progress@[j]) * 10 <= u64::MAX
                    &&& time_text(progress@[j] as nat).len() <= 13
                },
            decreases p + 1 - i,
        {
            if (i as usize) < progress.len() {
                let t = progress[i as usize];
                if t > u64::MAX / 10 {
                    return false;
                }
                if time_text_len(t) > 13 {
                    return false;
                }
            }
            i += 1;
        }
        if s as u16 != p as u16 + 1 && s > 250 {
            return false;
        }
        if progress.len() == NUM_LEVELS {
            let mut total: u64 = 0;
            let n = progress.len();
            for k in 0..n
                invariant
                    n == progress@.len(),
                    n == NUM_LEVELS,
                    total == seq_sum(progress@.take(k as int)),
                    total * 10 <= u64::MAX,
            {
                assert(progress@.take(k + 1).drop_last() =~= progress@.take(k as int));
                if progress[k] > u64::MAX / 10 - total {
                    proof {
                        lemma_seq_sum_prefix(progress@, k + 1);
                        assert(seq_sum(progress@.take(k + 1)) > u64::MAX / 10);
                        assert(seq_sum(progress@) * 10 > u64::MAX);
                    }
                    return false;
                }
                total = total + progress[k];
            }
            assert(progress@.take(n as int) =~= progress@);
            proof { reveal_strlit("sum:"); }
            assert(sum_label(progress@).len() == 4 + time_text(total as nat).len());
            if time_text_len(total) > 26 {
                return false;
            }
        }
        true
    }

    /// The steps that write the level select menu onto the screen's letter
    /// grid, for the best times `progress` (in full frames).
    pub fn text_ops(&self, progress: &[u64]) -> (r: Vec<GridOp>)
        requires
            level_select_text_fits(self.selection_spec() as int, progress@),
        ensures
            ops_view(r@) == level_select_text_ops(self.selection_spec() as int, progress@),
    {
        let s = self.selection;
        let p: u8 = if progress.len() < NUM_LEVELS - 1 { progress.len() as u8 } else { (NUM_LEVELS - 1) as u8 };
        let ghost rows = Seq::new((p + 1) as nat, |i: int| level_row_ops(i, progress@));
        let mut ops: Vec<GridOp> = Vec::new();
        push_op(&mut ops, GridOp::Start { x: 1, y: 1 });
        push_op(&mut ops, write_big_op("level select"));
        let ghost head = ops_view(ops@);
        assert(head =~= seq![GridOpView::Start { x: 1, y: 1 }, GridOpView::WriteBig { text: "level select"@ }]);
        assert(rows.take(0) =~= Seq::<Seq<GridOpView>>::empty());
        let mut i: u8 = 0;
        while i <= p
            invariant
                p <= 7,
                p == last_choosable(progress@.len() as int),
                i <= p + 1,
                rows == Seq::new((p + 1) as nat, |i: int| level_row_ops(i, progress@)),
                level_select_text_fits(s as int, progress@),
                ops_view(ops@) == head + rows.take(i as int).flatten(),
            decreases p + 1 - i,
        {
            let row = level_row(i, progress);
            append_ops(&mut ops, row);
            assert(rows.take(i + 1) =~= rows.take(i as int).push(rows[i as int]));
            proof { rows.take(i as int).lemma_flatten_push(rows[i as int]); }
            i += 1;
        }
        assert(rows.take((p + 1) as int) =~= rows);
        let mut marker: Vec<GridOp> = Vec::new();
        if s != p + 1 {
            push_op(&mut marker, GridOp::Start { x: 1, y: 5 + s });
            push_op(&mut marker, write_op("-"));
            push_op(&mut marker, GridOp::SetX { x: 17 });
            push_op(&mut marker, write_op("enter"));
        }
        assert(ops_view(marker@) =~= (if s != p + 1 {
            seq![
                GridOpView::Start { x: 1, y: (5 + s) as u8 },
                write_view("-"@),
                GridOpView::SetX { x: 17 },
                write_view("enter"@),
            ]
        } else {
            Seq::empty()
        }));
        append_ops(&mut ops, marker);
        let mut back: Vec<GridOp> = Vec::new();
        push_op(&mut back, GridOp::Start { x: 1, y: 7 + p });
        push_op(&mut back, write_if(s == p + 1, "-"));
        push_op(&mut back, GridOp::SetX { x: 3 });
        push_op(&mut back, write_op("back"));
        push_op(&mut back, GridOp::SetX { x: 17 });
        push_op(&mut back, write_if(s == p + 1, "enter"));
        assert(ops_view(back@) =~= seq![
            GridOpView::Start { x: 1, y: (7 + p) as u8 },
            write_view(if s == p + 1 { "-"@ } else { ""@ }),
            GridOpView::SetX { x: 3 },
            write_view("back"@),
            GridOpView::SetX { x: 17 },
            write_view(if s == p + 1 { "enter"@ } else { ""@ }),
        ]);
        append_ops(&mut ops, back);
        let mut sum_ops: Vec<GridOp> = Vec::new();
        if progress.len() == NUM_LEVELS {
            let mut total: u64 = 0;
            let n = progress.len();
            for k in 0..n
                invariant
                    n == progress@.len(),
                    seq_sum(progress@) * 10 <= u64::MAX,
                    total == seq_sum(progress@.take(k as int)),
            {
                proof {
                    lemma_seq_sum_prefix(progress@, k + 1);
                    assert(progress@.take(k + 1).drop_last() =~= progress@.take(k as int));
                }
                total = total + progress[k];
            }
            assert(progress@.take(n as int) =~= progress@);
            let mut label = String::from_str("sum:");
            let t = time_string(total);
            label.append(t.as_str());
            assert(label@ =~= sum_label(progress@));
            let len = label.as_str().unicode_len();
            push_op(&mut sum_ops, GridOp::Start { x: 30 - len as u8, y: 1 });
            push_op(&mut sum_ops, GridOp::Write { text: label });
        }
        assert(ops_view(sum_ops@) =~= (if progress@.len() == NUM_LEVELS {
            seq![
                GridOpView::Start { x: (30 - sum_label(progress@).len()) as u8, y: 1 },
                write_view(sum_label(progress@)),
            ]
        } else {
            Seq::empty()
        }));
        append_ops(&mut ops, sum_ops);
        ops
    }

    /// The selected entry.
    pub closed spec fn selection_spec(&self) -> u8 {
        self.selection
    }

    /// The level select menu with entry `sel` selected.
    pub closed spec fn at(sel: u8) -> LevelSelectMenu {
        LevelSelectMenu { selection: sel }
    }

    /// `at(sel)` is the level select menu whose selected entry is `sel`, and
    /// the only one.
    pub proof fn lemma_at(sel: u8)
        ensures
            LevelSelectMenu::at(sel).selection_spec() == sel,
            forall|m: LevelSelectMenu| #[trigger] m.selection_spec() == sel ==> m == LevelSelectMenu::at(sel),
    {
    }

    /// The level select menu with the entry just after the cleared levels
    /// selected (the selection is kept in a byte: `progress_len` modulo 256).
    pub fn new(progress_len: usize) -> (r: LevelSelectMenu)
        ensures
            r == LevelSelectMenu::at((progress_len % 256) as u8),
            r.selection_spec() == progress_len % 256,
    {
        LevelSelectMenu { selection: (progress_len % 256) as u8 }
    }

    /// The selected entry.
    pub fn selection(&self) -> (r: u8)
        ensures
            r == self.selection_spec(),
    {
        self.selection
    }

    /// Reacts to a key: up and down move the selection round the choosable
    /// levels and "back"; enter chooses.
    pub fn update(&mut self, sounds: &mut AllSounds, key: Key, progress_len: usize) -> (r: LSMUpdateResponse)
        requires
            is_down(key) && old(self).selection_spec() != last_choosable(progress_len as int) + 1
                ==> old(self).selection_spec() < 255,
        ensures
            ({
                let (sel, resp, s) = level_select_step(
                    old(self).selection_spec() as int,
                    key,
                    progress_len as int,
                    old(sounds)@,
                );
                &&& final(self).selection_spec() == sel
                &&& *final(self) == LevelSelectMenu::at(sel as u8)
                &&& r == resp
                &&& final(sounds)@ == s
            }),
    {
        let p: u8 = if progress_len < NUM_LEVELS - 1 { progress_len as u8 } else { (NUM_LEVELS - 1) as u8 };
        let s = self.selection;
        if key == Key::ArrowUp || key == Key::KeyW {
            self.selection = if s == 0 { p + 1 } else { s - 1 };
            sounds.play_menu_navigate();
        } else if key == Key::ArrowDown || key == Key::KeyS {
            self.selection = if s == p + 1 { 0 } else { s + 1 };
            sounds.play_menu_navigate();
        } else if key == Key::Enter || key == Key::NumpadEnter {
            sounds.play_menu_click();
            return if s == p + 1 { LSMUpdateResponse::Back } else { LSMUpdateResponse::ToLevel { level_id: s as usize } };
        }
        LSMUpdateResponse::Nothing
    }
}

} // verus!

verus! {

/// Turning the sound setting up moves it one step towards all muted, and
/// turning it down one step towards all on, stopping at either end.
pub proof fn law_sound_setting_steps(s: SoundState)
    ensures
        sound_level(sound_right(s)) == if sound_level(s) == 3 { 3 } else { sound_level(s) + 1 },
        sound_level(sound_left(s)) == if sound_level(s) == 0 { 0 } else { sound_level(s) - 1 },
{
}

/// Turning the sound setting up and then down again, short of the end,
/// gives back the same two mute switches.
pub proof fn law_sound_right_then_left(s: SoundState)
    requires
        sound_level(s) < 3,
    ensures
        sound_left(sound_right(s)).sfx_muted == s.sfx_muted,
        sound_left(sound_right(s)).music_muted == s.music_muted,
{
}

/// Keys in the title menu keep the pixel size within 1 to 15 and the
/// subframes within 1 to 12, and the selection among the five entries.
pub proof fn law_title_settings_stay_in_range(sel: int, key: Key, ps: int, ns: int, s: SoundState)
    requires
        0 <= sel <= 4,
        1 <= ps <= 15,
        1 <= ns <= 12,
    ensures
        ({
            let (sel2, _, ps2, ns2, _) = title_step(sel, key, ps, ns, s);
            &&& 0 <= sel2 <= 4
            &&& 1 <= ps2 <= 15
            &&& 1 <= ns2 <= 12
        }),
{
}

/// In the level select menu the selection stays among the choosable levels
/// and "back", and a chosen level is one of the game's levels, at most one
/// past the cleared ones.
pub proof fn law_level_choice_in_range(sel: int, key: Key, progress_len: int, s: SoundState)
    requires
        0 <= progress_len,
        0 <= sel <= last_choosable(progress_len) + 1,
    ensures
        ({
            let (sel2, resp, _) = level_select_step(sel, key, progress_len, s);
            &&& 0 <= sel2 <= last_choosable(progress_len) + 1
            &&& (resp matches LSMUpdateResponse::ToLevel { level_id } ==> {
                &&& level_id <= progress_len
                &&& level_id < NUM_LEVELS
            })
        }),
{
}

} // verus!

verus! {

/// Whether a key has nothing to do on title menu entry `sel`: it is neither
/// up nor down, and no action of that entry takes it.
pub open spec fn title_key_idle(sel: int, key: Key, ps: int, ns: int) -> bool {
    &&& !is_up(key) && !is_down(key)
    &&& !((sel == 0 || sel == 4) && is_enter(key))
    &&& !(sel == 1 && (is_left(key) || is_right(key)))
    &&& !(sel == 2 && ((is_left(key) && ps != 1) || (is_right(key) && ps != 15)))
    &&& !(sel == 3 && ((is_left(key) && ns != 1) || (is_right(key) && ns != 12)))
}

/// The title menu's cursor: up and down move it round the five entries with
/// the navigation sound, other keys leave it; the game starts exactly on
/// enter at "play"; and a key with nothing to do changes nothing at all.
pub proof fn law_title_cursor(sel: int, key: Key, ps: int, ns: int, s: SoundState)
    requires
        0 <= sel <= 4,
    ensures
        ({
            let (sel2, resp, ps2, ns2, s2) = title_step(sel, key, ps, ns, s);
            let nav = AudioCommand::PlaySfx { sfx: Sfx::MenuNavigate };
            &&& (is_up(key) ==> sel2 == (sel + 4) % 5 && s2 == s.play(nav))
            &&& (is_down(key) ==> sel2 == (sel + 1) % 5 && s2 == s.play(nav))
            &&& (!is_up(key) && !is_down(key) ==> sel2 == sel)
            &&& (resp == TitleMenuResponse::ToGame <==> sel == 0 && is_enter(key))
            &&& (title_key_idle(sel, key, ps, ns) ==> {
                &&& sel2 == sel
                &&& resp == TitleMenuResponse::Nothing
                &&& ps2 == ps
                &&& ns2 == ns
                &&& s2 == s
            })
        }),
{
}

} // verus!
