//! Playback of one track: which packets have been drawn, and where the clock
//! stands.
//!
//! Times are nanoseconds since a fixed moment in the past, as the caller reads
//! them from its clock. What is due at a time is given as a number of packets.

use crate::cdg::{
    cdeg_present, channels_of, channels_present, scan, slots_view, uses_cdeg, AnyPacket, PacketView,
};
use crate::playback::{
    draw, drawn, lemma_drawn_in_two, lemma_drawn_keeps_settings, lemma_drawn_wf, replay,
    start_screen, track_bytes, track_packets, CDG_BYTES_PER_SECTOR,
};
use crate::renderer::{CdegScreen, Composite};
use crate::renderer_laws::lemma_wf_screen_displayable;
use crate::text::{decimal2, number_text2};
use vstd::prelude::*;

verus! {

#[derive(Debug, Clone, Copy, PartialEq, Eq, Structural)]
pub enum PlayState {
    Playing,
    Paused,
    Stopped,
}

/// What is to be done with the audio after a seek. Audio that was queued before
/// is dropped in any case.
#[derive(Debug, Clone, Copy, PartialEq, Eq, Structural)]
pub struct SeekAudio {
    /// The first sample to queue, if there is one.
    pub queue_from: Option<usize>,
    /// Whether the queued audio is to be held.
    pub hold: bool,
}

/// A track being played.
pub struct Player {
    pub packets: Vec<(u32, Option<AnyPacket>)>,
    pub screen: CdegScreen,
    pub state: PlayState,
    /// How many packets have been drawn.
    pub packet_idx: usize,
    /// When the track would have started, had it played without a break.
    pub epoch: u64,
    /// When the clock was stopped, if it stands.
    pub paused_at: Option<u64>,
    /// The length of the track in packets.
    pub total_packets: usize,
    /// Whether the disc has CD+EG packets.
    pub is_cdeg: bool,
    /// Which of the 16 tile channels the disc uses.
    pub channels_present: [bool; 16],
}

/// The lesser of two numbers.
pub open spec fn lesser(a: int, b: int) -> int {
    if a < b {
        a
    } else {
        b
    }
}

impl Player {
    /// The contents of the packets.
    pub open spec fn slots(self) -> Seq<(u32, Option<PacketView>)> {
        slots_view(self.packets@)
    }

    /// The screen that `n` packets draw, with the current settings.
    pub open spec fn screen_at(self, n: int) -> Composite {
        drawn(
            start_screen(self.screen@.cdeg_enabled, self.screen@.active_channels),
            self.slots(),
            0,
            n,
        )
    }

    /// The screen shows exactly the packets that count as drawn, however they
    /// were reached, and the clock stands exactly when the track does not play.
    pub open spec fn wf(self) -> bool {
        &&& self.packets@.len() == self.total_packets || self.packets@.len() == 0
        &&& self.packet_idx <= self.packets@.len()
        &&& self.screen@ == self.screen_at(self.packet_idx as int)
        &&& self.paused_at is None <==> self.state == PlayState::Playing
    }

    /// Whether two players play the same track.
    pub open spec fn same_track(self, other: Player) -> bool {
        &&& self.packets == other.packets
        &&& self.total_packets == other.total_packets
        &&& self.is_cdeg == other.is_cdeg
        &&& self.channels_present == other.channels_present
    }

    /// Whether two players decode with the same settings.
    pub open spec fn same_settings(self, other: Player) -> bool {
        &&& self.screen@.cdeg_enabled == other.screen@.cdeg_enabled
        &&& self.screen@.active_channels == other.screen@.active_channels
    }

    /// Whether this is the beginning of a track with graphics. CD+EG graphics are
    /// decoded if they are enabled and the disc has them.
    pub open spec fn begun(
        self,
        raw: Seq<u8>,
        offset: int,
        sectors: int,
        cdeg_enabled: bool,
        channels: Seq<bool>,
        now: u64,
    ) -> bool {
        &&& self.wf()
        &&& self.slots() == scan(track_bytes(raw, offset, sectors))
        &&& self.total_packets == self.packets@.len()
        &&& self.packet_idx == 0
        &&& self.state == PlayState::Playing
        &&& self.epoch == now
        &&& self.is_cdeg == uses_cdeg(raw)
        &&& self.screen@.cdeg_enabled == (cdeg_enabled && self.is_cdeg)
        &&& self.screen@.active_channels == channels
        &&& self.channels_present@ == channels_of(raw)
    }

    /// Whether this is the beginning of a track without graphics.
    pub open spec fn begun_audio(
        self,
        total_packets: usize,
        cdeg_enabled: bool,
        channels: Seq<bool>,
        now: u64,
    ) -> bool {
        &&& self.wf()
        &&& self.packets@.len() == 0
        &&& self.total_packets == total_packets
        &&& self.packet_idx == 0
        &&& self.state == PlayState::Playing
        &&& self.epoch == now
        &&& !self.is_cdeg
        &&& self.screen@ == start_screen(cdeg_enabled, channels)
        &&& self.channels_present@ == Seq::new(16, |i: int| false)
    }

    /// Starts a track, given the raw bytes of the disc's `.cdg` file. CD+EG
    /// graphics are decoded if they are enabled and the disc has them.
    pub fn new(
        raw: &[u8],
        offset: usize,
        sectors: usize,
        cdeg_enabled: bool,
        channels: [bool; 16],
        now: u64,
    ) -> (r: Self)
        requires
            offset + sectors * CDG_BYTES_PER_SECTOR <= usize::MAX,
        ensures
            r.begun(raw@, offset as int, sectors as int, cdeg_enabled, channels@, now),
    {
        let packets = track_packets(raw, offset, sectors);
        let total: usize = packets.len();
        let present: [bool; 16] = channels_present(raw);
        let is_cdeg: bool = cdeg_present(raw);
        let screen = replay(cdeg_enabled && is_cdeg, channels, &packets, 0);
        Player {
            packets,
            screen,
            state: PlayState::Playing,
            packet_idx: 0,
            epoch: now,
            paused_at: None,
            total_packets: total,
            is_cdeg,
            channels_present: present,
        }
    }

    /// Starts a track without graphics. Its length in packets follows from its
    /// audio.
    pub fn audio_only(
        total_packets: usize,
        cdeg_enabled: bool,
        channels: [bool; 16],
        now: u64,
    ) -> (r: Self)
        ensures
            r.begun_audio(total_packets, cdeg_enabled, channels@, now),
    {
        let packets: Vec<(u32, Option<AnyPacket>)> = Vec::new();
        let screen = replay(cdeg_enabled, channels, &packets, 0);
        let present: [bool; 16] = [false; 16];
        assert(present@ =~= Seq::new(16, |i: int| false));
        Player {
            packets,
            screen,
            state: PlayState::Playing,
            packet_idx: 0,
            epoch: now,
            paused_at: None,
            total_packets,
            is_cdeg: false,
            channels_present: present,
        }
    }

    /// How long the clock has run since the track's epoch.
    pub open spec fn running_at(self, now: u64) -> int {
        let end = match self.paused_at {
            Some(t) => t,
            None => now,
        };
        if end < self.epoch {
            0
        } else {
            end - self.epoch
        }
    }

    /// The time played, given the track's whole duration: never more than that.
    pub fn elapsed(&self, now: u64, total_duration: u64) -> (r: u64)
        ensures
            r == lesser(self.running_at(now), total_duration as int),
    {
        let end: u64 = match self.paused_at {
            Some(t) => t,
            None => now,
        };
        let elapsed: u64 = if end < self.epoch {
            0
        } else {
            end - self.epoch
        };
        if elapsed < total_duration {
            elapsed
        } else {
            total_duration
        }
    }

    /// Goes to packet `target`, or to the end if there are fewer. `offset` is the
    /// playing time up to the target; `sample_pos` is the audio sample there, of
    /// `samples` samples. The screen is drawn anew up to the target.
    pub fn seek_to(
        &mut self,
        target: usize,
        now: u64,
        offset: u64,
        sample_pos: usize,
        samples: usize,
    ) -> (audio: SeekAudio)
        requires
            old(self).wf(),
            lesser(target as int, old(self).total_packets as int) <= old(self).packets@.len(),
            offset <= now,
        ensures
            final(self).wf(),
            final(self).same_track(*old(self)),
            final(self).same_settings(*old(self)),
            final(self).state == old(self).state,
            final(self).packet_idx == lesser(target as int, old(self).total_packets as int),
            final(self).epoch == now - offset,
            final(self).running_at(now) == offset,
            final(self).paused_at == if old(self).paused_at is Some {
                Some(now)
            } else {
                None
            },
            audio == (SeekAudio {
                queue_from: if sample_pos < samples {
                    Some(sample_pos)
                } else {
                    None
                },
                hold: sample_pos < samples && old(self).state == PlayState::Paused,
            }),
    {
        let target: usize = if target < self.total_packets {
            target
        } else {
            self.total_packets
        };
        self.redraw(self.screen.cdeg_enabled, self.screen.active_channels, target);
        self.epoch = now - offset;
        if self.paused_at.is_some() {
            self.paused_at = Some(now);
        }
        if sample_pos < samples {
            SeekAudio {
                queue_from: Some(sample_pos),
                hold: self.state == PlayState::Paused,
            }
        } else {
            SeekAudio { queue_from: None, hold: false }
        }
    }

    /// Draws the first `count` packets anew with the given settings.
    fn redraw(&mut self, cdeg_enabled: bool, channels: [bool; 16], count: usize)
        requires
            count <= old(self).packets@.len(),
        ensures
            *final(self) == (Player {
                screen: final(self).screen,
                packet_idx: count,
                ..*old(self)
            }),
            final(self).screen@ == final(self).screen_at(count as int),
            final(self).screen@.cdeg_enabled == cdeg_enabled,
            final(self).screen@.active_channels == channels@,
    {
        self.screen = replay(cdeg_enabled, channels, &self.packets, count);
        self.packet_idx = count;
        proof {
            lemma_drawn_keeps_settings(
                start_screen(cdeg_enabled, channels@),
                self.slots(),
                0,
                count as int,
            );
        }
    }

    /// Plays on; a stopped track starts over. Returns what a restart does with
    /// the audio, if there is one. `samples` is the number of audio samples.
    pub fn play(&mut self, now: u64, samples: usize) -> (audio: Option<SeekAudio>)
        requires
            old(self).wf(),
            old(self).state == PlayState::Paused && now > old(self).paused_at->Some_0
                ==> old(self).epoch + (now - old(self).paused_at->Some_0) <= u64::MAX,
        ensures
            final(self).wf(),
            final(self).same_track(*old(self)),
            final(self).same_settings(*old(self)),
            final(self).state == PlayState::Playing,
            match old(self).state {
                PlayState::Playing => audio is None && *final(self) == *old(self),
                PlayState::Paused => {
                    &&& audio is None
                    &&& final(self).packet_idx == old(self).packet_idx
                    &&& final(self).epoch == old(self).epoch + if now > old(
                        self,
                    ).paused_at->Some_0 {
                        now - old(self).paused_at->Some_0
                    } else {
                        0
                    }
                    &&& old(self).epoch <= old(self).paused_at->Some_0 <= now
                        ==> final(self).running_at(now) == old(self).running_at(now)
                },
                PlayState::Stopped => {
                    &&& audio == Some(
                        SeekAudio {
                            queue_from: if samples > 0 {
                                Some(0)
                            } else {
                                None
                            },
                            hold: false,
                        },
                    )
                    &&& final(self).packet_idx == 0
                    &&& final(self).epoch == now
                },
            },
    {
        let mut audio: Option<SeekAudio> = None;
        if self.state == PlayState::Stopped {
            audio = Some(self.seek_to(0, now, 0, 0, samples));
        }
        if let Some(paused_at) = self.paused_at {
            if now > paused_at {
                self.epoch = self.epoch + (now - paused_at);
            }
        }
        self.paused_at = None;
        self.state = PlayState::Playing;
        audio
    }

    /// Pauses a playing track. Returns whether it did.
    pub fn pause(&mut self, now: u64) -> (paused: bool)
        requires
            old(self).wf(),
        ensures
            final(self).wf(),
            paused == (old(self).state == PlayState::Playing),
            paused ==> forall|later: u64| #[trigger]
                final(self).running_at(later) == old(self).running_at(now),
            *final(self) == if paused {
                Player { state: PlayState::Paused, paused_at: Some(now), ..*old(self) }
            } else {
                *old(self)
            },
    {
        if self.state == PlayState::Playing {
            self.paused_at = Some(now);
            self.state = PlayState::Paused;
            true
        } else {
            false
        }
    }

    /// Stops the track and goes back to its start, with a blank screen.
    pub fn stop(&mut self, now: u64)
        requires
            old(self).wf(),
        ensures
            final(self).wf(),
            final(self).same_track(*old(self)),
            final(self).same_settings(*old(self)),
            final(self).state == PlayState::Stopped,
            final(self).packet_idx == 0,
            final(self).epoch == now,
            final(self).paused_at == Some(now),
    {
        self.redraw(self.screen.cdeg_enabled, self.screen.active_channels, 0);
        self.epoch = now;
        self.paused_at = Some(now);
        self.state = PlayState::Stopped;
    }

    /// Marks the track as played to its end, where the clock then stands.
    fn finish(&mut self, total_duration: u64)
        requires
            old(self).wf(),
            old(self).packet_idx >= old(self).total_packets,
            old(self).epoch + total_duration <= u64::MAX,
        ensures
            final(self).wf(),
            *final(self) == (Player {
                state: PlayState::Stopped,
                paused_at: Some((old(self).epoch + total_duration) as u64),
                ..*old(self)
            }),
    {
        self.packet_idx = self.total_packets;
        self.paused_at = Some(self.epoch + total_duration);
        self.state = PlayState::Stopped;
    }

    /// How many packets have been drawn once `due` are due.
    pub open spec fn drawn_when_due(self, due: int) -> int {
        let goal = lesser(lesser(due, self.total_packets as int), self.packets@.len() as int);
        if goal < self.packet_idx {
            self.packet_idx as int
        } else {
            goal
        }
    }

    /// Whether this is what becomes of `before` when `due` packets are due.
    pub open spec fn ticked(
        self,
        before: Player,
        due: int,
        total_duration: u64,
        ended: bool,
    ) -> bool {
        &&& self.wf()
        &&& self.same_track(before)
        &&& self.same_settings(before)
        &&& self.epoch == before.epoch
        &&& if before.state != PlayState::Playing {
            !ended && self == before
        } else {
            &&& self.packet_idx == before.drawn_when_due(due)
            &&& ended == (before.drawn_when_due(due) >= before.total_packets)
            &&& self.state == if ended {
                PlayState::Stopped
            } else {
                PlayState::Playing
            }
            &&& self.paused_at == if ended {
                Some((before.epoch + total_duration) as u64)
            } else {
                None
            }
        }
    }

    /// Draws the packets that are due by now, if the track plays. Returns whether
    /// the track has come to its end; it is then stopped there. `total_duration`
    /// is the track's whole duration.
    pub fn tick(&mut self, due: usize, total_duration: u64) -> (ended: bool)
        requires
            old(self).wf(),
            old(self).epoch + total_duration <= u64::MAX,
        ensures
            final(self).ticked(*old(self), due as int, total_duration, ended),
    {
        if self.state != PlayState::Playing {
            return false;
        }
        let due: usize = if due < self.total_packets {
            due
        } else {
            self.total_packets
        };
        let goal: usize = if due < self.packets.len() {
            due
        } else {
            self.packets.len()
        };
        if self.packet_idx < goal {
            let ghost start = start_screen(self.screen@.cdeg_enabled, self.screen@.active_channels);
            draw(&mut self.screen, &self.packets, self.packet_idx, goal);
            proof {
                lemma_drawn_in_two(start, self.slots(), 0, self.packet_idx as int, goal as int);
                lemma_drawn_keeps_settings(start, self.slots(), 0, goal as int);
            }
            self.packet_idx = goal;
        }
        if self.packet_idx >= self.total_packets {
            self.finish(total_duration);
            true
        } else {
            false
        }
    }

    /// Turns the decoding of CD+EG graphics on or off. The screen is drawn anew.
    pub fn set_cdeg_enabled(&mut self, enabled: bool)
        requires
            old(self).wf(),
        ensures
            final(self).wf(),
            *final(self) == (Player { screen: final(self).screen, ..*old(self) }),
            final(self).screen@.cdeg_enabled == enabled,
            final(self).screen@.active_channels == old(self).screen@.active_channels,
    {
        self.redraw(enabled, self.screen.active_channels, self.packet_idx);
    }

    /// Switches tile channel `ch` on or off. The screen is drawn anew. Returns
    /// whether the channel is now on.
    pub fn toggle_channel(&mut self, ch: usize) -> (on: bool)
        requires
            old(self).wf(),
            ch < 16,
        ensures
            final(self).wf(),
            *final(self) == (Player { screen: final(self).screen, ..*old(self) }),
            on == !old(self).screen@.active_channels[ch as int],
            final(self).screen@.active_channels == old(self).screen@.active_channels.update(
                ch as int,
                on,
            ),
            final(self).screen@.cdeg_enabled == old(self).screen@.cdeg_enabled,
    {
        let mut channels: [bool; 16] = self.screen.active_channels;
        let on: bool = !channels[ch];
        channels[ch] = on;
        self.redraw(self.screen.cdeg_enabled, channels, self.packet_idx);
        on
    }
}

/// What is shown depends on the track, the settings and the place in it alone, not
/// on how that place was reached: by playing, by seeking, or by switching settings
/// back and forth.
pub proof fn lemma_same_place_same_screen(a: Player, b: Player)
    requires
        a.wf(),
        b.wf(),
        a.slots() == b.slots(),
        a.same_settings(b),
        a.packet_idx == b.packet_idx,
    ensures
        a.screen@ == b.screen@,
{
}

/// The screen of a player can always be rendered.
pub proof fn lemma_player_displayable(p: Player)
    requires
        p.wf(),
    ensures
        p.screen@.displayable(),
{
    let start = start_screen(p.screen@.cdeg_enabled, p.screen@.active_channels);
    assert(p.screen.active_channels@.len() == 16);
    lemma_drawn_wf(start, p.slots(), 0, p.packet_idx as int);
    lemma_wf_screen_displayable(p.screen@);
}

// ── Times as text ───────────────────────────────────────────────────────────

/// A time as minutes and seconds, two digits each.
pub open spec fn clock(secs: nat) -> Seq<char> {
    decimal2(secs / 60) + ":"@ + decimal2(secs % 60)
}

/// Writes a time in whole seconds as minutes and seconds.
pub fn clock_text(secs: u64) -> (r: String)
    ensures
        r@ == clock(secs as nat),
{
    let mut r: String = number_text2(secs / 60);
    r.append(":");
    r.append(number_text2(secs % 60).as_str());
    r
}

/// Writes the time played and the whole time, both in whole seconds.
pub fn time_text(elapsed: u64, total: u64) -> (r: String)
    ensures
        r@ == clock(elapsed as nat) + " / "@ + clock(total as nat),
{
    let mut r: String = clock_text(elapsed);
    r.append(" / ");
    r.append(clock_text(total).as_str());
    r
}

/// Writes the label of a track.
pub fn track_label(number: u32) -> (r: String)
    ensures
        r@ == "Track "@ + decimal2(number as nat),
{
    let mut r: String = "Track ".to_string();
    r.append(number_text2(number as u64).as_str());
    r
}

} // verus!
