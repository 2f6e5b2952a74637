//! Export of tracks to MKV files: the frames of a track, the name of its file,
//! and the state that is shown meanwhile.
//!
//! Video is rendered at 30 frames per second, one for every 10 packets. Each
//! track becomes a file of its own, paired with its own audio.

use crate::cdg::{scan, slots_view, AnyPacket, PacketView};
use crate::playback::{
    draw, drawn, has_cdeg, holds_cdeg, lemma_drawn_in_two, lemma_drawn_wf, replay, start_screen,
    track_bytes, track_packets, CDG_BYTES_PER_SECTOR,
};
use crate::renderer::{blue, channels, green, red, CdegScreen, Composite, PIXEL_COUNT};
use crate::renderer_laws::lemma_wf_screen_displayable;
use crate::text::{
    chars_of, control_char, decimal, decimal2, lemma_decimal2_digits, lemma_decimal2_tells_apart,
    lemma_trim_left, lemma_trim_right, number_text, number_text2, string_of, trim, trim_range,
    trim_right, white, white_space,
};
use vstd::prelude::*;

verus! {

pub const EXPORT_FPS: u32 = 30;

pub const PACKETS_PER_FRAME: usize = 10;

// ── Frames ──────────────────────────────────────────────────────────────────

/// A frame in RGB24: three bytes per pixel.
pub open spec fn rgb24(frame: Seq<u32>) -> Seq<u8> {
    Seq::new(
        3 * frame.len(),
        |i: int|
            {
                let c = frame[i / 3];
                if i % 3 == 0 {
                    red(c) as u8
                } else if i % 3 == 1 {
                    green(c) as u8
                } else {
                    blue(c) as u8
                }
            },
    )
}

/// A frame in RGBA32: four bytes per pixel, fully opaque.
pub open spec fn rgba32(frame: Seq<u32>) -> Seq<u8> {
    Seq::new(
        4 * frame.len(),
        |i: int|
            {
                let c = frame[i / 4];
                if i % 4 == 0 {
                    red(c) as u8
                } else if i % 4 == 1 {
                    green(c) as u8
                } else if i % 4 == 2 {
                    blue(c) as u8
                } else {
                    255
                }
            },
    )
}

/// Converts a framebuffer to RGB24 bytes.
pub fn rgb24_bytes(fb: &Vec<u32>) -> (r: Vec<u8>)
    ensures
        r@ == rgb24(fb@),
{
    let mut r: Vec<u8> = Vec::new();
    let mut i: usize = 0;
    while i < fb.len()
        invariant
            i <= fb@.len(),
            r@.len() == 3 * i,
            forall|k: int| 0 <= k < r@.len() ==> r@[k] == rgb24(fb@)[k],
        decreases fb@.len() - i,
    {
        let (red, green, blue) = channels(fb[i]);
        r.push(red);
        r.push(green);
        r.push(blue);
        i += 1;
    }
    assert(r@ =~= rgb24(fb@));
    r
}

/// Converts a framebuffer to RGBA32 bytes.
pub fn rgba32_bytes(fb: &Vec<u32>) -> (r: Vec<u8>)
    ensures
        r@ == rgba32(fb@),
{
    let mut r: Vec<u8> = Vec::new();
    let mut i: usize = 0;
    while i < fb.len()
        invariant
            i <= fb@.len(),
            r@.len() == 4 * i,
            forall|k: int| 0 <= k < r@.len() ==> r@[k] == rgba32(fb@)[k],
        decreases fb@.len() - i,
    {
        let (red, green, blue) = channels(fb[i]);
        r.push(red);
        r.push(green);
        r.push(blue);
        r.push(255);
        i += 1;
    }
    assert(r@ =~= rgba32(fb@));
    r
}

/// Renders a screen to a new framebuffer.
pub fn framebuffer(screen: &CdegScreen) -> (fb: Vec<u32>)
    requires
        screen@.displayable(),
    ensures
        fb@ == screen@.frame(),
{
    let mut fb: Vec<u32> = Vec::new();
    let mut i: usize = 0;
    while i < PIXEL_COUNT
        invariant
            i <= PIXEL_COUNT,
            fb@.len() == i,
        decreases PIXEL_COUNT - i,
    {
        fb.push(0);
        i += 1;
    }
    screen.render(fb.as_mut_slice());
    assert(fb@ =~= screen@.frame());
    fb
}

/// How many packets have been drawn when frame `k` is shown.
pub open spec fn frame_end(packets: int, k: int) -> int {
    if (k + 1) * PACKETS_PER_FRAME < packets {
        (k + 1) * PACKETS_PER_FRAME
    } else {
        packets
    }
}

/// The screen of frame `k` of an export.
pub open spec fn frame_screen(
    start: Composite,
    slots: Seq<(u32, Option<PacketView>)>,
    k: int,
) -> Composite {
    drawn(start, slots, 0, frame_end(slots.len() as int, k))
}

/// How many frames an export of `packets` packets has: one for every ten, and
/// one for a rest.
pub open spec fn frame_count(packets: int) -> int {
    (packets + 9) / 10
}

/// The last frame of an export shows the whole track.
pub proof fn lemma_last_frame_is_whole(packets: int)
    requires
        packets > 0,
    ensures
        frame_count(packets) > 0,
        frame_end(packets, frame_count(packets) - 1) == packets,
{
}

/// The frames of a track, produced one after the other.
pub struct FrameExporter {
    pub packets: Vec<(u32, Option<AnyPacket>)>,
    pub cdeg_on: bool,
    pub active_channels: [bool; 16],
    pub screen: CdegScreen,
    /// How many packets have been drawn.
    pub pkt_idx: usize,
    /// How many frames have been produced.
    pub frame: usize,
}

impl FrameExporter {
    /// The contents of the packets.
    pub open spec fn slots(self) -> Seq<(u32, Option<PacketView>)> {
        slots_view(self.packets@)
    }

    /// The screen that the export starts with.
    pub open spec fn start(self) -> Composite {
        start_screen(self.cdeg_on, self.active_channels@)
    }

    /// The screen shows the frames produced so far.
    pub open spec fn wf(self) -> bool {
        &&& self.pkt_idx == frame_end(self.packets@.len() as int, self.frame - 1)
        &&& self.frame <= frame_count(self.packets@.len() as int)
        &&& self.screen@ == drawn(self.start(), self.slots(), 0, self.pkt_idx as int)
    }

    pub fn new(
        packets: Vec<(u32, Option<AnyPacket>)>,
        cdeg_on: bool,
        active_channels: [bool; 16],
    ) -> (r: Self)
        ensures
            r.wf(),
            r.packets == packets,
            r.cdeg_on == cdeg_on,
            r.active_channels == active_channels,
            r.frame == 0,
    {
        let screen = replay(cdeg_on, active_channels, &packets, 0);
        FrameExporter { packets, cdeg_on, active_channels, screen, pkt_idx: 0, frame: 0 }
    }

    /// The number of frames that progress is measured against.
    pub fn total_frames(&self) -> (r: usize)
        ensures
            r == if self.packets@.len() < PACKETS_PER_FRAME {
                1
            } else {
                self.packets@.len() as int / PACKETS_PER_FRAME as int
            },
    {
        let n: usize = self.packets.len() / PACKETS_PER_FRAME;
        if n < 1 {
            1
        } else {
            n
        }
    }

    /// Draws the packets of the next frame and returns it in RGB24; `None` when
    /// all packets have been drawn.
    pub fn next_frame(&mut self) -> (r: Option<Vec<u8>>)
        requires
            old(self).wf(),
        ensures
            final(self).wf(),
            final(self).packets == old(self).packets,
            final(self).cdeg_on == old(self).cdeg_on,
            final(self).active_channels == old(self).active_channels,
            match r {
                Some(bytes) => {
                    &&& old(self).frame < frame_count(old(self).packets@.len() as int)
                    &&& final(self).frame == old(self).frame + 1
                    &&& bytes@ == rgb24(
                        frame_screen(
                            old(self).start(),
                            old(self).slots(),
                            old(self).frame as int,
                        ).frame(),
                    )
                },
                None => {
                    &&& old(self).frame == frame_count(old(self).packets@.len() as int)
                    &&& *final(self) == *old(self)
                },
            },
    {
        let n: usize = self.packets.len();
        if self.pkt_idx >= n {
            return None;
        }
        let end: usize = if n - self.pkt_idx < PACKETS_PER_FRAME {
            n
        } else {
            self.pkt_idx + PACKETS_PER_FRAME
        };
        draw(&mut self.screen, &self.packets, self.pkt_idx, end);
        proof {
            lemma_drawn_in_two(self.start(), self.slots(), 0, self.pkt_idx as int, end as int);
            lemma_drawn_wf(self.start(), self.slots(), 0, end as int);
            lemma_wf_screen_displayable(self.screen@);
        }
        self.pkt_idx = end;
        let fb: Vec<u32> = framebuffer(&self.screen);
        self.frame = self.frame + 1;
        Some(rgb24_bytes(&fb))
    }
}

// ── File names ──────────────────────────────────────────────────────────────

/// The characters that Windows does not allow in a file name.
pub open spec fn reserved_char(c: char) -> bool {
    c == '<' || c == '>' || c == ':' || c == '"' || c == '/' || c == '\\' || c == '|' || c == '?'
        || c == '*'
}

/// A character of a file name: reserved and control characters give way to an
/// underscore.
pub open spec fn file_char(c: char) -> char {
    if control_char(c) || reserved_char(c) {
        '_'
    } else {
        c
    }
}

/// Being a space or a dot, as a function.
pub open spec fn space_or_dot() -> spec_fn(char) -> bool {
    |c: char| c == ' ' || c == '.'
}

/// A stem that is fit to be a file name: allowed characters, no spaces or dots
/// at the end, no white space around, and not empty.
pub open spec fn output_stem(stem: Seq<char>) -> Seq<char> {
    let allowed = stem.map_values(|c: char| file_char(c));
    let trimmed = trim(trim_right(allowed, space_or_dot()));
    if trimmed.len() == 0 {
        "Track"@
    } else {
        trimmed
    }
}

/// A stem is never empty, and holds no control character and no character that
/// Windows reserves.
pub proof fn lemma_output_stem_allowed(stem: Seq<char>)
    ensures
        output_stem(stem).len() > 0,
        forall|i: int|
            0 <= i < output_stem(stem).len() ==> !control_char(
                #[trigger] output_stem(stem)[i],
            ) && !reserved_char(output_stem(stem)[i]),
{
    reveal_strlit("Track");
    let allowed = stem.map_values(|c: char| file_char(c));
    let a = lemma_trim_right(allowed, space_or_dot());
    let b = lemma_trim_left(allowed.take(a), white());
    let c = lemma_trim_right(allowed.take(a).skip(b), white());
}

/// A stem does not end in a space or a dot, unless white space of another kind
/// stood behind it.
pub proof fn lemma_output_stem_end(stem: Seq<char>)
    requires
        forall|i: int|
            0 <= i < stem.len() ==> (white_space(#[trigger] stem[i]) ==> stem[i] == ' '
                || control_char(stem[i])),
    ensures
        output_stem(stem).last() != ' ',
        output_stem(stem).last() != '.',
{
    reveal_strlit("Track");
    let allowed = stem.map_values(|c: char| file_char(c));
    let a = lemma_trim_right(allowed, space_or_dot());
    let left = allowed.take(a);
    let b = lemma_trim_left(left, white());
    let c = lemma_trim_right(left.skip(b), white());
    if a > 0 {
        assert(!space_or_dot()(allowed[a - 1]));
        assert(!white_space(allowed[a - 1])) by {
            assert(stem[a - 1] == stem[a - 1]);
        }
        if b < a {
            assert(left.skip(b).last() == allowed[a - 1]);
            assert(c == left.skip(b).len()) by {
                if c < left.skip(b).len() {
                    assert(white()(left.skip(b)[left.skip(b).len() - 1]));
                }
            }
            assert(left.skip(b).take(c).last() == allowed[a - 1]);
        }
    }
}

fn is_reserved_char(c: char) -> (r: bool)
    ensures
        r == reserved_char(c),
{
    c == '<' || c == '>' || c == ':' || c == '"' || c == '/' || c == '\\' || c == '|' || c == '?'
        || c == '*'
}

/// Makes a file name stem out of any text.
pub fn sanitize_output_stem(stem: &str) -> (r: String)
    ensures
        r@ == output_stem(stem@),
{
    let chars: Vec<char> = chars_of(stem);
    let mut allowed: Vec<char> = Vec::new();
    let ghost all = stem@.map_values(|c: char| file_char(c));
    let mut i: usize = 0;
    while i < chars.len()
        invariant
            i <= chars@.len(),
            chars@ == stem@,
            all == stem@.map_values(|c: char| file_char(c)),
            allowed@ == all.take(i as int),
        decreases chars@.len() - i,
    {
        let c: char = chars[i];
        allowed.push(
            if c.is_control() || is_reserved_char(c) {
                '_'
            } else {
                c
            },
        );
        i += 1;
        assert(allowed@ =~= all.take(i as int));
    }
    assert(allowed@ =~= all);
    let mut end: usize = allowed.len();
    while end > 0 && (allowed[end - 1] == ' ' || allowed[end - 1] == '.')
        invariant
            end <= allowed@.len(),
            trim_right(allowed@, space_or_dot()) == trim_right(
                allowed@.take(end as int),
                space_or_dot(),
            ),
        decreases end,
    {
        assert(allowed@.take(end as int).drop_last() =~= allowed@.take(end - 1));
        end -= 1;
    }
    let (a, b) = trim_range(&allowed, 0, end);
    assert(allowed@.subrange(0, end as int) =~= allowed@.take(end as int));
    if a == b {
        "Track".to_string()
    } else {
        string_of(&allowed, a, b)
    }
}

/// The stem of the file that a track is exported to.
pub open spec fn track_stem(number: nat) -> Seq<char> {
    "Track "@ + decimal2(number)
}

/// The stem of a track's file is fit to be a file name as it is.
pub proof fn lemma_track_stem_fits(number: nat)
    ensures
        output_stem(track_stem(number)) == track_stem(number),
{
    reveal_strlit("Track ");
    lemma_decimal2_digits(number);
    let stem = track_stem(number);
    let allowed = stem.map_values(|c: char| file_char(c));
    assert forall|i: int| 0 <= i < stem.len() implies allowed[i] == #[trigger] stem[i] by {
        if i >= 6 {
            assert(stem[i] == decimal2(number)[i - 6]);
        }
    }
    assert(allowed =~= stem);
    let last = stem.len() - 1;
    assert(stem[last] == decimal2(number).last());
    let a = lemma_trim_right(stem, space_or_dot());
    assert(a == stem.len()) by {
        if a < stem.len() {
            assert(space_or_dot()(stem[last]));
        }
    }
    assert(stem.take(a) =~= stem);
    let b = lemma_trim_left(stem, white());
    assert(b == 0) by {
        if b > 0 {
            assert(white()(stem[0]));
        }
    }
    assert(stem.skip(0) =~= stem);
    let c = lemma_trim_right(stem, white());
    assert(c == stem.len()) by {
        if c < stem.len() {
            assert(white()(stem[last]));
        }
    }
}

/// Tracks with different numbers are exported to different files.
pub proof fn lemma_track_stems_differ(a: nat, b: nat)
    requires
        a != b,
    ensures
        track_stem(a) != track_stem(b),
{
    if track_stem(a) == track_stem(b) {
        let n = "Track "@.len() as int;
        assert(decimal2(a) =~= track_stem(a).skip(n));
        assert(decimal2(b) =~= track_stem(b).skip(n));
        lemma_decimal2_tells_apart(a, b);
    }
}

/// Names the file that a track is exported to, without its extension.
pub fn track_file_stem(number: u32) -> (r: String)
    ensures
        r@ == "Track "@ + decimal2(number as nat),
{
    let mut name: String = "Track ".to_string();
    name.append(number_text2(number as u64).as_str());
    proof {
        lemma_track_stem_fits(number as nat);
    }
    sanitize_output_stem(name.as_str())
}

/// What an export of one track needs.
pub struct TrackPlan {
    pub packets: Vec<(u32, Option<AnyPacket>)>,
    /// Whether CD+EG graphics are decoded.
    pub cdeg_on: bool,
    /// The name of the file, without its extension.
    pub file_stem: String,
}

/// Plans the export of a track from the raw bytes of the disc's `.cdg` file.
/// CD+EG graphics are decoded if they are enabled and the track has them.
pub fn plan_track(
    raw: &[u8],
    offset: usize,
    sectors: usize,
    cdeg_enabled: bool,
    number: u32,
) -> (plan: TrackPlan)
    requires
        offset + sectors * CDG_BYTES_PER_SECTOR <= usize::MAX,
    ensures
        slots_view(plan.packets@) == scan(track_bytes(raw@, offset as int, sectors as int)),
        plan.cdeg_on == (cdeg_enabled && holds_cdeg(slots_view(plan.packets@))),
        plan.file_stem@ == track_stem(number as nat),
{
    let packets = track_packets(raw, offset, sectors);
    let cdeg_on: bool = cdeg_enabled && has_cdeg(&packets);
    let file_stem: String = track_file_stem(number);
    TrackPlan { packets, cdeg_on, file_stem }
}

// ── State ───────────────────────────────────────────────────────────────────

/// What is shown of an export.
#[derive(Debug, Clone)]
pub enum ExportState {
    Idle,
    /// `track_idx` counts from 0. Progress within the track is `frame` out of
    /// `total_frames`.
    Running { track_idx: usize, total: usize, frame: usize, total_frames: usize },
    Done,
    Error(String),
}

/// What happens to an export.
pub enum ExportEvent {
    /// The `.cdg` file could not be read, for the given reason.
    ReadFailed(String),
    TrackStarted { track_idx: usize },
    FrameWritten { track_idx: usize, frame: usize, total_frames: usize },
    /// A track, given by its number, could not be exported.
    TrackFailed { number: u32, reason: String },
    Cancelled,
    Finished,
}

/// The state that an event leads to, in an export of `total` tracks.
pub open spec fn state_follows(total: usize, event: ExportEvent, state: ExportState) -> bool {
    match event {
        ExportEvent::ReadFailed(reason) => state matches ExportState::Error(message) && message@
            == "Cannot read CDG: "@ + reason@,
        ExportEvent::TrackStarted { track_idx } => state == (ExportState::Running {
            track_idx,
            total,
            frame: 0,
            total_frames: 1,
        }),
        ExportEvent::FrameWritten { track_idx, frame, total_frames } => state == (
        ExportState::Running { track_idx, total, frame, total_frames }),
        ExportEvent::TrackFailed { number, reason } => state matches ExportState::Error(message)
            && message@ == "Track "@ + decimal2(number as nat) + ": "@ + reason@,
        ExportEvent::Cancelled => state == ExportState::Idle,
        ExportEvent::Finished => state == ExportState::Done,
    }
}

impl ExportState {
    /// The state after an event, in an export of `total` tracks.
    pub fn after(total: usize, event: ExportEvent) -> (state: ExportState)
        ensures
            state_follows(total, event, state),
    {
        match event {
            ExportEvent::ReadFailed(reason) => {
                let mut message: String = "Cannot read CDG: ".to_string();
                message.append(reason.as_str());
                ExportState::Error(message)
            },
            ExportEvent::TrackStarted { track_idx } => ExportState::Running {
                track_idx,
                total,
                frame: 0,
                total_frames: 1,
            },
            ExportEvent::FrameWritten { track_idx, frame, total_frames } => ExportState::Running {
                track_idx,
                total,
                frame,
                total_frames,
            },
            ExportEvent::TrackFailed { number, reason } => {
                let mut message: String = "Track ".to_string();
                message.append(number_text2(number as u64).as_str());
                message.append(": ");
                message.append(reason.as_str());
                ExportState::Error(message)
            },
            ExportEvent::Cancelled => ExportState::Idle,
            ExportEvent::Finished => ExportState::Done,
        }
    }

    /// The line of text that is shown for a state, if any. `percent` is the
    /// progress within the track, written as a number.
    pub fn status_text(&self, percent: &str) -> (r: Option<String>)
        requires
            self matches ExportState::Running { track_idx, .. } ==> track_idx < usize::MAX,
        ensures
            match *self {
                ExportState::Idle => r is None,
                ExportState::Running { track_idx, total, .. } => r matches Some(text) && text@
                    == "Track "@ + decimal((track_idx + 1) as nat) + "/"@ + decimal(total as nat)
                    + " - "@ + percent@ + "%"@,
                ExportState::Done => r matches Some(text) && text@ == "Export done."@,
                ExportState::Error(message) => r matches Some(text) && text@ == message@,
            },
    {
        match self {
            ExportState::Idle => None,
            ExportState::Running { track_idx, total, .. } => {
                let mut text: String = "Track ".to_string();
                text.append(number_text((*track_idx + 1) as u64).as_str());
                text.append("/");
                text.append(number_text(*total as u64).as_str());
                text.append(" - ");
                text.append(percent);
                text.append("%");
                Some(text)
            },
            ExportState::Done => Some("Export done.".to_string()),
            ExportState::Error(message) => Some(message.clone()),
        }
    }
}

/// What an export does next.
#[derive(Debug, Clone, Copy, PartialEq, Eq, Structural)]
pub enum ExportStep {
    /// Export the track with this index.
    Export(usize),
    /// Stop, because of a request.
    Cancel,
    /// All tracks are done.
    Finish,
}

/// The next step of an export of `total` tracks of which `done` are done.
pub open spec fn step_at(done: int, total: int, cancel_requested: bool) -> ExportStep {
    if cancel_requested && total > 0 {
        ExportStep::Cancel
    } else if done < total {
        ExportStep::Export(done as usize)
    } else {
        ExportStep::Finish
    }
}

/// The next step of an export of `total` tracks of which `done` are done. A
/// request to stop takes effect between two tracks, and after the last one.
pub fn next_step(done: usize, total: usize, cancel_requested: bool) -> (step: ExportStep)
    ensures
        step == step_at(done as int, total as int, cancel_requested),
{
    if cancel_requested && total > 0 {
        ExportStep::Cancel
    } else if done < total {
        ExportStep::Export(done)
    } else {
        ExportStep::Finish
    }
}

/// What follows after an attempt to export the track with index `done`. A track that
/// failed ends the export: there is no next step.
pub fn step_after_track(done: usize, total: usize, failed: bool, cancel_requested: bool) -> (step:
    Option<ExportStep>)
    requires
        done < total,
    ensures
        step is None <==> failed,
        !failed ==> step == Some(step_at(done + 1, total as int, cancel_requested)),
{
    if failed {
        None
    } else {
        Some(next_step(done + 1, total, cancel_requested))
    }
}

/// Which tracks are attempted, from the track with index `done` on, if `fails` tells
/// of each whether it fails and no stop is requested: all before the first number
/// of the result. The second tells whether a failure ended the export.
pub open spec fn attempted(fails: Seq<bool>, done: int) -> (int, bool)
    decreases fails.len() - done,
{
    match step_at(done, fails.len() as int, false) {
        ExportStep::Export(_) => if fails[done] {
            (done + 1, true)
        } else {
            attempted(fails, done + 1)
        },
        _ => (done, false),
    }
}

/// The first track that fails is the last that is attempted; if none fails, all are.
pub proof fn lemma_failure_ends_export(fails: Seq<bool>, done: int)
    requires
        0 <= done <= fails.len(),
    ensures
        ({
            let (count, failed) = attempted(fails, done);
            &&& done <= count <= fails.len()
            &&& failed ==> done < count && fails[count - 1] && forall|k: int|
                done <= k < count - 1 ==> !fails[k]
            &&& !failed ==> count == fails.len() && forall|k: int|
                done <= k < fails.len() ==> !fails[k]
        }),
    decreases fails.len() - done,
{
    if done < fails.len() && !fails[done] {
        lemma_failure_ends_export(fails, done + 1);
    }
}

/// What follows after a frame.
#[derive(Debug, Clone, Copy, PartialEq, Eq, Structural)]
pub enum FrameStep {
    /// The next frame, if there is one.
    Next,
    /// The end, because of a request.
    Cancelled,
    /// The end, because the frame could not be handed over.
    WriteFailed,
}

/// What follows after a frame.
pub open spec fn frame_step(written: bool, cancel_requested: bool) -> FrameStep {
    if !written {
        FrameStep::WriteFailed
    } else if cancel_requested {
        FrameStep::Cancelled
    } else {
        FrameStep::Next
    }
}

/// Decides what follows after a frame: a run ends with the frame after which a stop
/// is requested, or with one that could not be handed over.
pub fn after_frame(written: bool, cancel_requested: bool) -> (step: FrameStep)
    ensures
        step == if !written {
            FrameStep::WriteFailed
        } else if cancel_requested {
            FrameStep::Cancelled
        } else {
            FrameStep::Next
        },
        step == frame_step(written, cancel_requested),
{
    if !written {
        FrameStep::WriteFailed
    } else if cancel_requested {
        FrameStep::Cancelled
    } else {
        FrameStep::Next
    }
}

/// How many frames are handed over, from frame `k` on, if `stop` tells of each frame
/// whether a stop is requested after it, and all can be handed over.
pub open spec fn frames_piped(stop: Seq<bool>, k: int) -> int
    decreases stop.len() - k,
{
    if k >= stop.len() {
        k
    } else if frame_step(true, stop[k]) == FrameStep::Next {
        frames_piped(stop, k + 1)
    } else {
        k + 1
    }
}

/// The first frame after which a stop is requested is the last; without a request
/// all frames are handed over.
pub proof fn lemma_cancel_ends_run(stop: Seq<bool>, k: int)
    requires
        0 <= k <= stop.len(),
    ensures
        k <= frames_piped(stop, k) <= stop.len(),
        forall|j: int| k <= j < frames_piped(stop, k) - 1 ==> !stop[j],
        frames_piped(stop, k) < stop.len() ==> k < frames_piped(stop, k) && stop[frames_piped(
            stop,
            k,
        ) - 1],
    decreases stop.len() - k,
{
    if k < stop.len() && !stop[k] {
        lemma_cancel_ends_run(stop, k + 1);
    }
}

} // verus!
