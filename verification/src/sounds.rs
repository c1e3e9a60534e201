use vstd::prelude::*;
use crate::geometry::Vector2;

verus! {

/// The two music tracks.
#[derive(Clone, Copy, PartialEq, Eq, Structural, Debug)]
pub enum Music {
    Menu,
    Game,
}

/// The sound effects played at full volume.
#[derive(Clone, Copy, PartialEq, Eq, Structural, Debug)]
pub enum Sfx {
    MenuNavigate,
    MenuClick,
    Explosion,
    LevelClear,
    /// Played by the host only where `bounce_restarts` says so.
    Bounce,
}

/// What the audio device is asked to do.
#[derive(Clone, Copy, PartialEq, Eq, Structural, Debug)]
pub enum AudioCommand {
    PlayMusic { music: Music },
    StopMusic { music: Music },
    PlaySfx { sfx: Sfx },
    /// The black hole sound, at a volume that grows with the pull (its length
    /// divided by ten, at most full volume).
    BlackHolePull { pull: Vector2 },
}

/// The audio settings and the current track, with the commands issued since
/// the host last collected them.
pub struct AllSounds {
    current_music: Music,
    music_muted: bool,
    sfx_muted: bool,
    commands: Vec<AudioCommand>,
}

/// The abstract state of the audio: the current track, the two mute
/// switches, and the commands not yet collected.
pub struct SoundState {
    pub current_music: Music,
    pub music_muted: bool,
    pub sfx_muted: bool,
    pub commands: Seq<AudioCommand>,
}

impl SoundState {
    /// The state after a switch to `music`: nothing happens if it is already
    /// the track; otherwise, unless the music is muted, the old track is
    /// stopped and the new one started.
    pub open spec fn change_music(self, music: Music) -> SoundState {
        if self.current_music == music {
            self
        } else if self.music_muted {
            SoundState { current_music: music, ..self }
        } else {
            SoundState {
                current_music: music,
                commands: self.commands.push(AudioCommand::StopMusic { music: self.current_music })
                    .push(AudioCommand::PlayMusic { music }),
                ..self
            }
        }
    }

    /// The state after the music switch is set: the current track is stopped
    /// when muting and started when unmuting.
    pub open spec fn set_music_muted(self, muted: bool) -> SoundState {
        SoundState {
            music_muted: muted,
            commands: self.commands.push(
                if muted {
                    AudioCommand::StopMusic { music: self.current_music }
                } else {
                    AudioCommand::PlayMusic { music: self.current_music }
                },
            ),
            ..self
        }
    }

    /// The state after a sound effect is asked for: it is issued unless the
    /// effects are muted.
    pub open spec fn play(self, command: AudioCommand) -> SoundState {
        if self.sfx_muted {
            self
        } else {
            SoundState { commands: self.commands.push(command), ..self }
        }
    }
}

impl View for AllSounds {
    type V = SoundState;

    closed spec fn view(&self) -> SoundState {
        SoundState {
            current_music: self.current_music,
            music_muted: self.music_muted,
            sfx_muted: self.sfx_muted,
            commands: self.commands@,
        }
    }
}

impl AllSounds {
    /// Audio at the title screen: the menu track, started unless the music
    /// is muted.
    pub open spec fn new_spec(music_muted: bool, sfx_muted: bool) -> SoundState {
        SoundState {
            current_music: Music::Menu,
            music_muted,
            sfx_muted,
            commands: if music_muted {
                Seq::<AudioCommand>::empty()
            } else {
                seq![AudioCommand::PlayMusic { music: Music::Menu }]
            },
        }
    }

    /// Audio at the title screen: the menu track, started unless the music
    /// is muted.
    pub fn new(music_muted: bool, sfx_muted: bool) -> (r: AllSounds)
        ensures
            r@ == AllSounds::new_spec(music_muted, sfx_muted),
            r@.current_music == Music::Menu,
            r@.music_muted == music_muted,
            r@.sfx_muted == sfx_muted,
            r@.commands == (if music_muted {
                Seq::<AudioCommand>::empty()
            } else {
                seq![AudioCommand::PlayMusic { music: Music::Menu }]
            }),
    {
        let mut commands: Vec<AudioCommand> = Vec::new();
        if !music_muted {
            commands.push(AudioCommand::PlayMusic { music: Music::Menu });
        }
        AllSounds { current_music: Music::Menu, music_muted, sfx_muted, commands }
    }

    /// Switches to `new_music`, as `SoundState::change_music` says.
    fn change_music(&mut self, new_music: Music)
        ensures
            final(self)@ == old(self)@.change_music(new_music),
    {
        if self.current_music == new_music {
            return;
        }
        if !self.music_muted {
            self.commands.push(AudioCommand::StopMusic { music: self.current_music });
        }
        self.current_music = new_music;
        if !self.music_muted {
            self.commands.push(AudioCommand::PlayMusic { music: new_music });
        }
    }

    /// The track that plays while the music is not muted.
    pub fn current_music(&self) -> (r: Music)
        ensures
            r == self@.current_music,
    {
        self.current_music
    }

    /// Whether the music is muted.
    pub fn music_muted(&self) -> (r: bool)
        ensures
            r == self@.music_muted,
    {
        self.music_muted
    }

    /// Mutes or unmutes the music, stopping or starting the current track.
    pub fn set_music_muted(&mut self, muted: bool)
        ensures
            final(self)@ == old(self)@.set_music_muted(muted),
    {
        self.music_muted = muted;
        if muted {
            self.commands.push(AudioCommand::StopMusic { music: self.current_music });
        } else {
            self.commands.push(AudioCommand::PlayMusic { music: self.current_music });
        }
    }

    /// Whether the sound effects are muted.
    pub fn sfx_muted(&self) -> (r: bool)
        ensures
            r == self@.sfx_muted,
    {
        self.sfx_muted
    }

    /// Mutes or unmutes the sound effects.
    pub fn set_sfx_muted(&mut self, muted: bool)
        ensures
            final(self)@ == (SoundState { sfx_muted: muted, ..old(self)@ }),
    {
        self.sfx_muted = muted;
    }

    /// Switches to the menu track.
    pub fn set_to_menu(&mut self)
        ensures
            final(self)@ == old(self)@.change_music(Music::Menu),
    {
        self.change_music(Music::Menu);
    }

    /// Switches to the game track.
    pub fn set_to_game(&mut self)
        ensures
            final(self)@ == old(self)@.change_music(Music::Game),
    {
        self.change_music(Music::Game);
    }

    /// Issues a sound effect unless the effects are muted.
    fn play_sfx(&mut self, sfx: Sfx)
        ensures
            final(self)@ == old(self)@.play(AudioCommand::PlaySfx { sfx }),
    {
        if !self.sfx_muted {
            self.commands.push(AudioCommand::PlaySfx { sfx });
        }
    }

    /// The sound of moving through a menu.
    pub fn play_menu_navigate(&mut self)
        ensures
            final(self)@ == old(self)@.play(AudioCommand::PlaySfx { sfx: Sfx::MenuNavigate }),
    {
        self.play_sfx(Sfx::MenuNavigate);
    }

    /// The sound of choosing in a menu.
    pub fn play_menu_click(&mut self)
        ensures
            final(self)@ == old(self)@.play(AudioCommand::PlaySfx { sfx: Sfx::MenuClick }),
    {
        self.play_sfx(Sfx::MenuClick);
    }

    /// The sound of the ship blowing up.
    pub fn play_explosion(&mut self)
        ensures
            final(self)@ == old(self)@.play(AudioCommand::PlaySfx { sfx: Sfx::Explosion }),
    {
        self.play_sfx(Sfx::Explosion);
    }

    /// The sound of reaching the portal.
    pub fn play_level_clear(&mut self)
        ensures
            final(self)@ == old(self)@.play(AudioCommand::PlaySfx { sfx: Sfx::LevelClear }),
    {
        self.play_sfx(Sfx::LevelClear);
    }

    /// The sound of hitting a bumper.
    pub fn play_bounce(&mut self)
        ensures
            final(self)@ == old(self)@.play(AudioCommand::PlaySfx { sfx: Sfx::Bounce }),
    {
        self.play_sfx(Sfx::Bounce);
    }

    /// The sound of a black hole pulling with `pull`.
    pub fn play_black_hole_pull(&mut self, pull: Vector2)
        ensures
            final(self)@ == old(self)@.play(AudioCommand::BlackHolePull { pull }),
    {
        if !self.sfx_muted {
            self.commands.push(AudioCommand::BlackHolePull { pull });
        }
    }

    /// Hands over the commands issued so far, oldest first, and forgets them.
    pub fn take_commands(&mut self) -> (r: Vec<AudioCommand>)
        ensures
            r@ == old(self)@.commands,
            final(self)@ == (SoundState { commands: Seq::empty(), ..old(self)@ }),
    {
        let mut taken: Vec<AudioCommand> = Vec::new();
        std::mem::swap(&mut taken, &mut self.commands);
        taken
    }
}

/// Whether the bounce sound starts (again) when asked for: if it is not
/// playing, or has played for more than a tenth of a second, given how long
/// it has played in nanoseconds. Otherwise the request is dropped, so that a
/// ship grinding along a bumper does not restart it every subframe.
pub fn bounce_restarts(playing: bool, elapsed_nanos: u128) -> (r: bool)
    ensures
        r == (!playing || elapsed_nanos > 100_000_000),
{
    !playing || elapsed_nanos > 100_000_000
}

/// Switching to the track that is already playing does nothing.
pub proof fn law_change_music_idempotent(s: SoundState, music: Music)
    ensures
        s.change_music(music).change_music(music) == s.change_music(music),
{
}

/// Switching to the game track and back to the menu track ends on the menu
/// track with the settings unchanged; with the music on, the game track was
/// started and stopped in between.
pub proof fn law_game_and_back(s: SoundState)
    requires
        s.current_music == Music::Menu,
    ensures
        s.change_music(Music::Game).change_music(Music::Menu).current_music == Music::Menu,
        s.change_music(Music::Game).change_music(Music::Menu).music_muted == s.music_muted,
        s.change_music(Music::Game).change_music(Music::Menu).sfx_muted == s.sfx_muted,
        s.music_muted ==> s.change_music(Music::Game).change_music(Music::Menu).commands == s.commands,
        !s.music_muted ==> s.change_music(Music::Game).change_music(Music::Menu).commands == s.commands
            + seq![
                AudioCommand::StopMusic { music: Music::Menu },
                AudioCommand::PlayMusic { music: Music::Game },
                AudioCommand::StopMusic { music: Music::Game },
                AudioCommand::PlayMusic { music: Music::Menu },
            ],
{
    assert(s.change_music(Music::Game).change_music(Music::Menu).commands =~= (if s.music_muted {
        s.commands
    } else {
        s.commands + seq![
            AudioCommand::StopMusic { music: Music::Menu },
            AudioCommand::PlayMusic { music: Music::Game },
            AudioCommand::StopMusic { music: Music::Game },
            AudioCommand::PlayMusic { music: Music::Menu },
        ]
    }));
}

/// With the sound effects muted, asking for one issues nothing.
pub proof fn law_muted_effects_are_silent(s: SoundState, command: AudioCommand)
    requires
        s.sfx_muted,
    ensures
        s.play(command) == s,
{
}

} // verus!
