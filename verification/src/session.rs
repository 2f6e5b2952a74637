//! What the application remembers between two frames of its window: the open
//! disc, the track that plays, and the settings that carry over.

use crate::cdg::{channels_of, channels_present};
use crate::playback::{
    default_channels, default_channels_of, following_track, track_bytes, track_slice,
    CDG_BYTES_PER_SECTOR,
};
use crate::player::Player;
use vstd::prelude::*;

verus! {

/// The state of the application.
pub struct Session {
    /// The numbers of the disc's tracks; empty if no disc is open.
    pub numbers: Vec<u32>,
    /// Whether the disc has graphics.
    pub has_graphics: bool,
    /// The track that was loaded last.
    pub track_idx: usize,
    /// Whether CD+EG graphics are decoded on discs that have them.
    pub cdeg_enabled: bool,
    /// The tile channels that are shown and exported.
    pub active_channels: [bool; 16],
    /// The track that plays; none while the library is shown.
    pub player: Option<Player>,
    /// Why a disc could not be opened. The next attempt to open one dismisses it.
    pub open_error: Option<String>,
}

/// What is to be done after the clock has moved on.
#[derive(Debug, Clone, Copy, PartialEq, Eq, Structural)]
pub enum Next {
    /// Nothing.
    Stay,
    /// Load the track with this index.
    Load(usize),
    /// Go back to the library.
    Library,
}

/// What the main part of the window shows.
#[derive(Debug, Clone, Copy, PartialEq, Eq, Structural)]
pub enum Panel {
    /// Why a disc could not be opened.
    OpenError,
    /// That the disc has no graphics.
    AudioOnly,
    /// The graphics.
    Video,
    /// That no library is set.
    NoLibrary,
    /// That the library is empty.
    EmptyLibrary,
    /// The discs of the library.
    Library,
}

impl Session {
    /// A player plays one of the disc's tracks, and shows the channels that are
    /// remembered.
    pub open spec fn wf(self) -> bool {
        self.player matches Some(p) ==> {
            &&& p.wf()
            &&& self.track_idx < self.numbers@.len()
            &&& p.screen@.active_channels == self.active_channels@
        }
    }

    /// Starts with no disc, and with the first two channels on.
    pub fn new() -> (r: Self)
        ensures
            r.wf(),
            r.numbers@.len() == 0,
            !r.has_graphics,
            r.track_idx == 0,
            r.cdeg_enabled,
            r.active_channels@ == Seq::new(16, |ch: int| ch < 2),
            r.player is None,
            r.open_error is None,
    {
        let mut active: [bool; 16] = [false; 16];
        active[0] = true;
        active[1] = true;
        assert(active@ =~= Seq::new(16, |ch: int| ch < 2));
        Session {
            numbers: Vec::new(),
            has_graphics: false,
            track_idx: 0,
            cdeg_enabled: true,
            active_channels: active,
            player: None,
            open_error: None,
        }
    }

    /// Begins to open a disc. An earlier message is dismissed.
    pub fn begin_open(&mut self)
        ensures
            *final(self) == (Session { open_error: None, ..*old(self) }),
            old(self).wf() ==> final(self).wf(),
    {
        self.open_error = None;
    }

    /// Notes that a disc could not be opened, and why. What was open stays open.
    pub fn open_failed(&mut self, message: String)
        ensures
            *final(self) == (Session { open_error: Some(message), ..*old(self) }),
            old(self).wf() ==> final(self).wf(),
    {
        self.open_error = Some(message);
    }

    /// Opens a disc with the given track numbers. `raw` holds the bytes of its
    /// `.cdg` file, in which the first track begins at byte `offset`. The channels
    /// are set to what the first track asks for. No track plays yet, and no message
    /// of an earlier failure is left.
    pub fn open_disc(
        &mut self,
        numbers: Vec<u32>,
        has_graphics: bool,
        raw: &[u8],
        offset: usize,
        sectors: usize,
    )
        requires
            offset + sectors * CDG_BYTES_PER_SECTOR <= usize::MAX,
        ensures
            final(self).wf(),
            final(self).numbers == numbers,
            final(self).has_graphics == has_graphics,
            final(self).track_idx == 0,
            final(self).cdeg_enabled == old(self).cdeg_enabled,
            final(self).player is None,
            final(self).open_error is None,
            final(self).active_channels@ == default_channels_of(
                if has_graphics && numbers@.len() > 0 {
                    channels_of(track_bytes(raw@, offset as int, sectors as int))
                } else {
                    Seq::new(16, |ch: int| false)
                },
            ),
    {
        let present: [bool; 16] = if has_graphics && numbers.len() > 0 {
            channels_present(track_slice(raw, offset, sectors))
        } else {
            [false; 16]
        };
        let ghost expected = if has_graphics && numbers@.len() > 0 {
            channels_of(track_bytes(raw@, offset as int, sectors as int))
        } else {
            Seq::new(16, |ch: int| false)
        };
        assert(present@ =~= expected);
        self.active_channels = default_channels(&present);
        self.numbers = numbers;
        self.has_graphics = has_graphics;
        self.track_idx = 0;
        self.player = None;
        self.open_error = None;
    }

    /// Starts the track with index `idx`; nothing happens if there is none. `raw`
    /// holds the bytes of the disc's `.cdg` file, in which the track begins at
    /// byte `offset`. On a disc without graphics the track is `audio_packets`
    /// packets long. `now` is the time.
    pub fn load_track(
        &mut self,
        idx: usize,
        raw: &[u8],
        offset: usize,
        sectors: usize,
        audio_packets: usize,
        now: u64,
    )
        requires
            old(self).wf(),
            offset + sectors * CDG_BYTES_PER_SECTOR <= usize::MAX,
        ensures
            final(self).wf(),
            idx >= old(self).numbers@.len() ==> *final(self) == *old(self),
            idx < old(self).numbers@.len() ==> {
                &&& *final(self) == (Session {
                    track_idx: idx,
                    player: final(self).player,
                    ..*old(self)
                })
                &&& final(self).player matches Some(p) && if old(self).has_graphics {
                    p.begun(
                        raw@,
                        offset as int,
                        sectors as int,
                        old(self).cdeg_enabled,
                        old(self).active_channels@,
                        now,
                    )
                } else {
                    p.begun_audio(
                        audio_packets,
                        old(self).cdeg_enabled,
                        old(self).active_channels@,
                        now,
                    )
                }
            },
    {
        if idx >= self.numbers.len() {
            return;
        }
        self.track_idx = idx;
        self.player = Some(
            if self.has_graphics {
                Player::new(
                    raw,
                    offset,
                    sectors,
                    self.cdeg_enabled,
                    self.active_channels,
                    now,
                )
            } else {
                Player::audio_only(audio_packets, self.cdeg_enabled, self.active_channels, now)
            },
        );
    }

    /// Closes the disc. The settings are kept.
    pub fn return_to_library(&mut self)
        ensures
            final(self).wf(),
            final(self).numbers@.len() == 0,
            !final(self).has_graphics,
            final(self).player is None,
            final(self).track_idx == old(self).track_idx,
            final(self).cdeg_enabled == old(self).cdeg_enabled,
            final(self).active_channels == old(self).active_channels,
            final(self).open_error == old(self).open_error,
    {
        self.player = None;
        self.numbers = Vec::new();
        self.has_graphics = false;
    }

    /// Draws what is due by now. When the track has come to its end, the next one
    /// follows, and the library after the last. `due` is the number of packets that
    /// are due, `total_duration` the track's whole duration.
    pub fn tick(&mut self, due: usize, total_duration: u64) -> (next: Next)
        requires
            old(self).wf(),
            old(self).player matches Some(p) ==> p.epoch + total_duration <= u64::MAX,
        ensures
            final(self).wf(),
            *final(self) == (Session { player: final(self).player, ..*old(self) }),
            match old(self).player {
                None => final(self).player is None && next == Next::Stay,
                Some(before) => final(self).player matches Some(p) && {
                    &&& p.ticked(before, due as int, total_duration, next != Next::Stay)
                    &&& next != Next::Stay ==> next == if old(self).track_idx + 1 < old(
                        self,
                    ).numbers@.len() {
                        Next::Load((old(self).track_idx + 1) as usize)
                    } else {
                        Next::Library
                    }
                },
            },
    {
        match &mut self.player {
            None => Next::Stay,
            Some(p) => if p.tick(due, total_duration) {
                match following_track(self.track_idx, self.numbers.len()) {
                    Some(idx) => Next::Load(idx),
                    None => Next::Library,
                }
            } else {
                Next::Stay
            },
        }
    }

    /// Turns CD+EG graphics on or off on a disc that has them. The choice carries
    /// over to the next track.
    pub fn toggle_cdeg(&mut self)
        requires
            old(self).wf(),
        ensures
            final(self).wf(),
            match old(self).player {
                Some(before) if before.is_cdeg => final(self).player matches Some(p) && {
                    &&& p == (Player { screen: p.screen, ..before })
                    &&& p.screen@.cdeg_enabled == !before.screen@.cdeg_enabled
                    &&& *final(self) == (Session {
                        cdeg_enabled: p.screen@.cdeg_enabled,
                        player: Some(p),
                        ..*old(self)
                    })
                },
                _ => *final(self) == *old(self),
            },
    {
        if let Some(p) = &mut self.player {
            if p.is_cdeg {
                let enabled: bool = !p.screen.cdeg_enabled;
                p.set_cdeg_enabled(enabled);
                self.cdeg_enabled = enabled;
            }
        }
    }

    /// Switches tile channel `ch` on or off, if the disc uses it. The choice
    /// carries over to the next track.
    pub fn toggle_channel(&mut self, ch: usize)
        requires
            old(self).wf(),
            ch < 16,
        ensures
            final(self).wf(),
            match old(self).player {
                Some(before) if before.channels_present@[ch as int] => {
                    &&& final(self).player matches Some(p) && p == (Player {
                        screen: p.screen,
                        ..before
                    }) && p.screen@.cdeg_enabled == before.screen@.cdeg_enabled
                    &&& final(self).active_channels@ == old(self).active_channels@.update(
                        ch as int,
                        !old(self).active_channels@[ch as int],
                    )
                    &&& *final(self) == (Session {
                        active_channels: final(self).active_channels,
                        player: final(self).player,
                        ..*old(self)
                    })
                },
                _ => *final(self) == *old(self),
            },
    {
        if let Some(p) = &mut self.player {
            if p.channels_present[ch] {
                let on: bool = p.toggle_channel(ch);
                self.active_channels[ch] = on;
            }
        }
    }

    /// The channels that an export of the whole disc shows.
    pub fn album_channels(&self) -> (r: [bool; 16])
        ensures
            r@ == default_channels_of(
                match self.player {
                    Some(p) => p.channels_present@,
                    None => Seq::new(16, |ch: int| false),
                },
            ),
    {
        match &self.player {
            Some(p) => default_channels(&p.channels_present),
            None => {
                let none: [bool; 16] = [false; 16];
                assert(none@ =~= Seq::new(16, |ch: int| false));
                default_channels(&none)
            },
        }
    }

    /// Whether an export decodes CD+EG graphics: as the track that plays does, or else
    /// as is remembered.
    pub fn export_cdeg(&self) -> (r: bool)
        ensures
            r == match self.player {
                Some(p) => p.screen@.cdeg_enabled,
                None => self.cdeg_enabled,
            },
    {
        match &self.player {
            Some(p) => p.screen.cdeg_enabled,
            None => self.cdeg_enabled,
        }
    }

    /// Whether there is a disc with graphics to export.
    pub fn can_export(&self) -> (r: bool)
        ensures
            r == (self.numbers@.len() > 0 && self.has_graphics),
    {
        self.numbers.len() > 0 && self.has_graphics
    }

    /// What the main part of the window shows. An error comes first; the library
    /// is shown while nothing plays.
    pub fn panel(&self, library_set: bool, library_size: usize) -> (r: Panel)
        ensures
            r == if self.open_error is Some {
                Panel::OpenError
            } else if self.player is Some {
                if self.has_graphics {
                    Panel::Video
                } else {
                    Panel::AudioOnly
                }
            } else if !library_set {
                Panel::NoLibrary
            } else if library_size == 0 {
                Panel::EmptyLibrary
            } else {
                Panel::Library
            },
    {
        if self.open_error.is_some() {
            Panel::OpenError
        } else if self.player.is_some() {
            if self.has_graphics {
                Panel::Video
            } else {
                Panel::AudioOnly
            }
        } else if !library_set {
            Panel::NoLibrary
        } else if library_size == 0 {
            Panel::EmptyLibrary
        } else {
            Panel::Library
        }
    }
}

/// The words that are shown below the library.
pub fn library_hint(library_size: usize) -> (r: &'static str)
    ensures
        r@ == if library_size == 0 {
            "Click \"Set Library\" to navigate to your CD+G disc images, or click \"Open\" to load a file."@
        } else {
            "Select a CD+G title or click \"Open\" to load a file."@
        },
{
    if library_size == 0 {
        "Click \"Set Library\" to navigate to your CD+G disc images, or click \"Open\" to load a file."
    } else {
        "Select a CD+G title or click \"Open\" to load a file."
    }
}

} // verus!
