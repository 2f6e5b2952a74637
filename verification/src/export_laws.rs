//! What an export comes to: the bytes of its frames, the packets that each frame
//! shows, the name of its file, and the states it goes through.

use crate::cdg::PacketView;
use crate::export::{
    file_char, frame_count, frame_end, frame_screen, output_stem, rgb24, rgba32, space_or_dot,
    state_follows, step_at, track_stem, ExportEvent, ExportState, ExportStep,
};
use crate::playback::drawn;
use crate::renderer::Composite;
use crate::text::{decimal2, ends_with, lemma_trim_right, starts_with, white_space};
use crate::text_laws::{digits_value, lemma_decimal_value, lemma_trimmed};
use vstd::prelude::*;

verus! {

// ── Frames ──────────────────────────────────────────────────────────────────

/// A pixel of a frame becomes three bytes, its red, green and blue, which together
/// make up its color.
pub proof fn lemma_rgb24(frame: Seq<u32>, i: int)
    requires
        0 <= i < frame.len(),
        frame[i] < 0x100_0000,
    ensures
        rgb24(frame).len() == 3 * frame.len(),
        rgb24(frame)[3 * i] * 65536 + rgb24(frame)[3 * i + 1] * 256 + rgb24(frame)[3 * i + 2]
            == frame[i],
{
    lemma_color_bytes(frame[i]);
}

/// With alpha a pixel becomes four bytes: the same three, and one for full opacity.
pub proof fn lemma_rgba32(frame: Seq<u32>, i: int)
    requires
        0 <= i < frame.len(),
        frame[i] < 0x100_0000,
    ensures
        rgba32(frame).len() == 4 * frame.len(),
        rgba32(frame)[4 * i] * 65536 + rgba32(frame)[4 * i + 1] * 256 + rgba32(frame)[4 * i + 2]
            == frame[i],
        rgba32(frame)[4 * i + 3] == 255,
{
    lemma_color_bytes(frame[i]);
}

proof fn lemma_color_bytes(c: u32)
    requires
        c < 0x100_0000,
    ensures
        ((c / 0x1_0000) % 256) * 65536 + ((c / 0x100) % 256) * 256 + c % 256 == c,
        (c / 0x1_0000) % 256 < 256 && (c / 0x100) % 256 < 256,
{
    assert(((c / 0x1_0000) % 256) * 65536 + ((c / 0x100) % 256) * 256 + c % 256 == c)
        by (bit_vector)
        requires
            c < 0x100_0000,
    ;
}

/// Each frame shows ten packets more than the one before, and the last one the whole
/// track; there are as many frames as that takes. Frame `k` is drawn by the packets up
/// to there, from the start of the track.
pub proof fn lemma_frames(
    start: Composite,
    slots: Seq<(u32, Option<PacketView>)>,
    k: int,
)
    requires
        0 <= k,
    ensures
        10 * (frame_count(slots.len() as int) - 1) < slots.len() <= 10 * frame_count(
            slots.len() as int,
        ),
        frame_end(slots.len() as int, -1) == 0,
        10 * (k + 1) <= slots.len() ==> frame_end(slots.len() as int, k) == 10 * (k + 1)
            && frame_screen(start, slots, k) == drawn(start, slots, 0, 10 * (k + 1)),
        10 * (k + 1) > slots.len() ==> frame_end(slots.len() as int, k) == slots.len()
            && frame_screen(start, slots, k) == drawn(start, slots, 0, slots.len() as int),
{
}

// ── File names ──────────────────────────────────────────────────────────────

/// Whether a character cannot stand in a file name: a control character, or one of
/// nine that Windows reserves.
pub open spec fn forbidden(c: char) -> bool {
    ||| c as u32 <= 31
    ||| 127 <= c as u32 <= 159
    ||| c == '<' || c == '>' || c == ':' || c == '"' || c == '/'
    ||| c == '\\' || c == '|' || c == '?' || c == '*'
}

/// What stands in a file name for a character.
pub open spec fn in_file_name(c: char) -> char {
    if forbidden(c) {
        '_'
    } else {
        c
    }
}

/// A stem keeps its characters, but for an underscore in place of each that cannot
/// stand in a file name. Gone are the spaces and dots at its end, and after them the
/// white space around it.
pub proof fn lemma_stem_kept(
    before: Seq<char>,
    core: Seq<char>,
    after: Seq<char>,
    tail: Seq<char>,
)
    requires
        forall|i: int|
            0 <= i < before.len() ==> white_space(#[trigger] before[i]) && !forbidden(before[i]),
        forall|i: int|
            0 <= i < after.len() ==> white_space(#[trigger] after[i]) && !forbidden(after[i]),
        forall|i: int| 0 <= i < tail.len() ==> #[trigger] tail[i] == ' ' || tail[i] == '.',
        after.len() > 0 ==> after.last() != ' ',
        core.len() > 0,
        !white_space(in_file_name(core[0])),
        !white_space(in_file_name(core.last())),
        after.len() == 0 ==> core.last() != '.',
    ensures
        output_stem(before + core + after + tail).len() == core.len(),
        forall|i: int|
            0 <= i < core.len() ==> #[trigger] output_stem(before + core + after + tail)[i]
                == in_file_name(core[i]),
{
    let stem = before + core + after + tail;
    let allowed = stem.map_values(|c: char| file_char(c));
    let mapped = core.map_values(|c: char| file_char(c));
    let body = before + mapped + after;
    assert(allowed =~= body + tail) by {
        assert forall|i: int| 0 <= i < allowed.len() implies allowed[i] == (body + tail)[i] by {
            if i < before.len() {
                assert(stem[i] == before[i]);
            } else if i < before.len() + core.len() {
                assert(stem[i] == core[i - before.len()]);
            } else if i < body.len() {
                assert(stem[i] == after[i - before.len() - core.len()]);
            } else {
                assert(stem[i] == tail[i - body.len()]);
            }
        }
    }
    let k = lemma_trim_right(allowed, space_or_dot());
    assert(k == body.len()) by {
        if k < body.len() {
            assert(space_or_dot()(allowed[body.len() - 1]));
            if after.len() > 0 {
                assert(allowed[body.len() - 1] == after.last());
                assert(white_space(after[after.len() - 1]));
            } else {
                assert(allowed[body.len() - 1] == mapped.last());
            }
        }
        if k > body.len() {
            assert(allowed[k - 1] == tail[k - 1 - body.len()]);
        }
    }
    assert(allowed.take(k) =~= body);
    lemma_trimmed(before, mapped, after);
}

/// A stem of nothing but white space, and spaces and dots behind it, gives way to the
/// word `Track`.
pub proof fn lemma_stem_replaced(before: Seq<char>, tail: Seq<char>)
    requires
        forall|i: int|
            0 <= i < before.len() ==> white_space(#[trigger] before[i]) && !forbidden(before[i]),
        forall|i: int| 0 <= i < tail.len() ==> #[trigger] tail[i] == ' ' || tail[i] == '.',
    ensures
        output_stem(before + tail) == seq!['T', 'r', 'a', 'c', 'k'],
{
    reveal_strlit("Track");
    let stem = before + tail;
    let allowed = stem.map_values(|c: char| file_char(c));
    let k = lemma_trim_right(allowed, space_or_dot());
    assert forall|i: int| 0 <= i < allowed.len() implies allowed[i] == stem[i] by {
        if i < before.len() {
            assert(stem[i] == before[i]);
        } else {
            assert(stem[i] == tail[i - before.len()]);
        }
    }
    assert(k <= before.len()) by {
        if k > before.len() {
            assert(allowed[k - 1] == tail[k - 1 - before.len()]);
        }
    }
    assert forall|i: int| 0 <= i < k implies white_space(#[trigger] allowed.take(k)[i]) by {
        assert(allowed[i] == before[i]);
    }
    lemma_trimmed(allowed.take(k), seq![], seq![]);
    assert(allowed.take(k) + seq![] + seq![] =~= allowed.take(k));
    assert("Track"@ =~= seq!['T', 'r', 'a', 'c', 'k']);
}

/// The file of a track is called by its number, in two digits at least.
pub proof fn lemma_track_stem(number: nat)
    ensures
        track_stem(number).len() >= 8,
        track_stem(number).take(6) == seq!['T', 'r', 'a', 'c', 'k', ' '],
        digits_value(track_stem(number).skip(6)) == number,
{
    reveal_strlit("Track ");
    lemma_decimal_value(number);
    assert(track_stem(number).take(6) =~= seq!['T', 'r', 'a', 'c', 'k', ' ']);
    assert(track_stem(number).skip(6) =~= decimal2(number));
}

// ── States ──────────────────────────────────────────────────────────────────

/// An export is at rest after a stop, done at its end, and in error exactly if the
/// disc could not be read or a track failed: the message then ends in the reason, and
/// names the track by its number. Otherwise it runs, on the track and the frame that
/// were reached last.
pub proof fn lemma_states(total: usize, event: ExportEvent, state: ExportState)
    requires
        state_follows(total, event, state),
    ensures
        state is Idle <==> event is Cancelled,
        state is Done <==> event is Finished,
        state is Error <==> event is ReadFailed || event is TrackFailed,
        event matches ExportEvent::ReadFailed(reason) ==> ends_with(state->Error_0@, reason@),
        event matches ExportEvent::TrackFailed { number, reason } ==> ends_with(
            state->Error_0@,
            reason@,
        ) && starts_with(
            state->Error_0@,
            seq!['T', 'r', 'a', 'c', 'k', ' '] + decimal2(number as nat) + seq![':', ' '],
        ) && state->Error_0@.len() == 8 + decimal2(number as nat).len() + reason@.len(),
        event matches ExportEvent::TrackStarted { track_idx } ==> state == (
        ExportState::Running { track_idx, total, frame: 0, total_frames: 1 }),
        state matches ExportState::Running { track_idx, total: all, frame, total_frames }
            ==> all == total && (event is TrackStarted || event == (ExportEvent::FrameWritten {
            track_idx,
            frame,
            total_frames,
        })),
{
    reveal_strlit("Cannot read CDG: ");
    reveal_strlit("Track ");
    reveal_strlit(": ");
    match event {
        ExportEvent::ReadFailed(reason) => {
            let m = state->Error_0@;
            assert(m.subrange(m.len() - reason@.len(), m.len() as int) =~= reason@);
        },
        ExportEvent::TrackFailed { number, reason } => {
            let m = state->Error_0@;
            let d = decimal2(number as nat);
            let head = seq!['T', 'r', 'a', 'c', 'k', ' '] + d + seq![':', ' '];
            assert(m.subrange(m.len() - reason@.len(), m.len() as int) =~= reason@);
            assert("Track "@ =~= seq!['T', 'r', 'a', 'c', 'k', ' ']);
            assert(": "@ =~= seq![':', ' ']);
            assert(m.subrange(0, head.len() as int) =~= head);
        },
        _ => {},
    }
}

/// A stop is heeded before every track and after the last, if there are any tracks at
/// all. Without one the tracks are exported in turn, each by its index, and then the
/// export ends.
pub proof fn lemma_steps(done: int, total: int, cancel_requested: bool)
    requires
        0 <= done <= usize::MAX,
        0 <= total <= usize::MAX,
    ensures
        step_at(done, total, cancel_requested) is Cancel <==> cancel_requested && total > 0,
        step_at(done, total, cancel_requested) is Export <==> !cancel_requested && done < total,
        step_at(done, total, cancel_requested) matches ExportStep::Export(i) ==> i == done,
        step_at(done, total, false) is Finish <==> done >= total,
{
}

} // verus!
