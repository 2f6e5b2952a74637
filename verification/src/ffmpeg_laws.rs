//! What holds of the search for ffmpeg, of its command line, and of what is said when
//! it fails.

use crate::ffmpeg::{
    binary_name, distinct, encoder_args, failure_text, fallback_locations, input_args, last_written,
    lemma_distinct, listed_encoder, local_locations, run_error, spawn_text, Av1Encoder, Base, Os,
    RunEnd,
};
use crate::text::{decimal, ends_with, joined, lines, lossy_text, occurs, stands_at, trim};
use crate::text_laws::{lemma_joined_holds, lemma_occurs_within};
use vstd::prelude::*;

verus! {

// ── Where it is ─────────────────────────────────────────────────────────────

/// Every place near the program is the file of ffmpeg in a directory that is known, or
/// in one below it. The current directory comes before the program's own, and either
/// before what is below it.
pub proof fn lemma_local_locations(os: Os, current_dir: bool, exe_dir: bool, i: int)
    requires
        0 <= i < local_locations(os, current_dir, exe_dir).len(),
    ensures
        ({
            let list = local_locations(os, current_dir, exe_dir);
            let (base, parts) = list[i];
            let in_current: int = if current_dir {
                2
            } else {
                0
            };
            &&& list.len() == in_current + if exe_dir {
                3int
            } else {
                0
            }
            &&& parts.last() == binary_name(os)
            &&& base == if i < in_current {
                Base::CurrentDir
            } else {
                Base::ExeDir
            }
            &&& base == Base::CurrentDir ==> current_dir
            &&& base == Base::ExeDir ==> exe_dir
            &&& parts.len() == 1 <==> i == 0 || i == in_current
            &&& parts.len() <= 2
        }),
{
}

/// The place of ffmpeg below a directory of the environment is tried only where the
/// environment names it, and only on Windows; elsewhere there are three fixed places.
pub proof fn lemma_fallback_locations(os: Os, program_data: bool, user_profile: bool, i: int)
    requires
        0 <= i < fallback_locations(os, program_data, user_profile).len(),
    ensures
        ({
            let list = fallback_locations(os, program_data, user_profile);
            let (base, parts) = list[i];
            &&& os != Os::Windows ==> list.len() == 3 && base == Base::Absolute && parts.len() == 1
            &&& os == Os::Windows ==> (base == Base::ProgramData && program_data && i == 0) || (base
                == Base::UserProfile && user_profile && i >= list.len() - 2)
            &&& os == Os::Windows ==> parts.last() == "ffmpeg.exe"@ && parts.last() == binary_name(
                os,
            )
            &&& os == Os::Windows && program_data && user_profile ==> list.len() == 3
        }),
{
}

/// Of two places, the one that is named first is tried first.
pub proof fn lemma_distinct_in_order(list: Seq<u64>, i: int, j: int)
    requires
        0 <= i < j < list.len(),
        forall|k: int| 0 <= k < i ==> list[k] != list[i],
        forall|k: int| 0 <= k < j ==> list[k] != list[j],
    ensures
        exists|a: int, b: int|
            0 <= a < b < distinct(list).len() && #[trigger] distinct(list)[a] == list[i]
                && #[trigger] distinct(list)[b] == list[j],
    decreases list.len(),
{
    let rest = list.drop_last();
    lemma_distinct(rest);
    if j == list.len() - 1 {
        assert(!rest.contains(list[j])) by {
            if rest.contains(list[j]) {
                let k = choose|k: int| 0 <= k < rest.len() && rest[k] == list[j];
                assert(list[k] == list[j]);
            }
        }
        assert(rest[i] == list[i]);
        assert(rest.contains(list[i]));
        let a = choose|a: int| 0 <= a < distinct(rest).len() && distinct(rest)[a] == list[i];
        let b = distinct(rest).len() as int;
        assert(distinct(list)[a] == list[i]);
        assert(distinct(list)[b] == list[j]);
    } else {
        lemma_distinct_in_order(rest, i, j);
        let (a, b) = choose|a: int, b: int|
            0 <= a < b < distinct(rest).len() && #[trigger] distinct(rest)[a] == rest[i]
                && #[trigger] distinct(rest)[b] == rest[j];
        assert(distinct(list)[a] == list[i]);
        assert(distinct(list)[b] == list[j]);
    }
}

// ── The encoder ─────────────────────────────────────────────────────────────

/// If ffmpeg lists one of the two encoders, as a word between spaces, the one that it is
/// told to use is listed. If it lists both or neither, that is SVT-AV1.
pub proof fn lemma_listed_encoder(listing: Seq<char>)
    ensures
        ({
            let svt = seq![' '] + encoder_args(Av1Encoder::SvtAv1)[1] + seq![' '];
            let aom = seq![' '] + encoder_args(Av1Encoder::AomAv1)[1] + seq![' '];
            &&& listed_encoder(listing) == Av1Encoder::AomAv1 <==> occurs(listing, aom) && !occurs(
                listing,
                svt,
            )
            &&& occurs(listing, svt) ==> listed_encoder(listing) == Av1Encoder::SvtAv1
            &&& encoder_args(Av1Encoder::SvtAv1)[1] == seq![
                'l',
                'i',
                'b',
                's',
                'v',
                't',
                'a',
                'v',
                '1',
            ]
            &&& encoder_args(Av1Encoder::AomAv1)[1] == seq![
                'l',
                'i',
                'b',
                'a',
                'o',
                'm',
                '-',
                'a',
                'v',
                '1',
            ]
        }),
{
    reveal_strlit(" libsvtav1 ");
    reveal_strlit(" libaom-av1 ");
    reveal_strlit("libsvtav1");
    reveal_strlit("libaom-av1");
    let svt = seq![' '] + encoder_args(Av1Encoder::SvtAv1)[1] + seq![' '];
    let aom = seq![' '] + encoder_args(Av1Encoder::AomAv1)[1] + seq![' '];
    assert(svt =~= " libsvtav1 "@);
    assert(aom =~= " libaom-av1 "@);
}

/// A listing in which a word stands between two others holds it.
pub proof fn lemma_listed_anywhere(before: Seq<char>, after: Seq<char>)
    ensures
        listed_encoder(before + " libsvtav1 "@ + after) == Av1Encoder::SvtAv1,
{
    let listing = before + " libsvtav1 "@ + after;
    let n = before.len() as int;
    assert(listing.subrange(n, n + " libsvtav1 "@.len()) =~= " libsvtav1 "@);
    assert(stands_at(listing, " libsvtav1 "@, n));
}

/// Both encoders are set up for the same quality, by arguments that differ in the
/// encoder's name and in what its speed is called.
pub proof fn lemma_encoder_args(encoder: Av1Encoder, other: Av1Encoder, i: int)
    requires
        0 <= i < 8,
    ensures
        encoder_args(encoder).len() == 8,
        encoder_args(encoder)[0] == "-c:v"@,
        encoder_args(encoder)[2] == "-crf"@ && encoder_args(encoder)[3] == seq!['3', '0'],
        encoder_args(encoder)[4] == "-b:v"@ && encoder_args(encoder)[5] == seq!['0'],
        encoder_args(encoder)[7] == seq!['6'],
        i != 1 && i != 6 ==> encoder_args(encoder)[i] == encoder_args(other)[i],
{
    reveal_strlit("30");
    reveal_strlit("0");
    reveal_strlit("6");
    assert("30"@ =~= seq!['3', '0']);
    assert("0"@ =~= seq!['0']);
    assert("6"@ =~= seq!['6']);
}

/// The video that is handed over is said to be what the frames are: three bytes for
/// each pixel, 300 by 216 of them, thirty times a second.
pub proof fn lemma_video_format(wav_path: Seq<char>)
    ensures
        input_args(wav_path)[3] == "-pixel_format"@ && input_args(wav_path)[4] == "rgb24"@,
        input_args(wav_path)[5] == "-video_size"@ && input_args(wav_path)[6] == seq![
            '3',
            '0',
            '0',
            'x',
            '2',
            '1',
            '6',
        ],
        input_args(wav_path)[7] == "-framerate"@ && input_args(wav_path)[8] == seq!['3', '0'],
{
    reveal_strlit("x");
    reveal_with_fuel(decimal, 3);
    assert(decimal(300) =~= seq!['3', '0', '0']);
    assert(decimal(216) =~= seq!['2', '1', '6']);
    assert(decimal(30) =~= seq!['3', '0']);
    assert(input_args(wav_path)[6] =~= seq!['3', '0', '0', 'x', '2', '1', '6']);
}

/// The audio file is the second input, behind the video on standard input. The video
/// is taken from the first and the audio from the second. All other arguments are the
/// same whatever the file.
pub proof fn lemma_inputs(wav_path: Seq<char>, other_path: Seq<char>, i: int)
    requires
        0 <= i < input_args(wav_path).len(),
    ensures
        input_args(wav_path)[9] == "-i"@ && input_args(wav_path)[10] == "pipe:0"@,
        input_args(wav_path)[11] == "-i"@ && input_args(wav_path)[12] == wav_path,
        input_args(wav_path)[13] == "-map"@ && input_args(wav_path)[14] == "0:v"@,
        input_args(wav_path)[15] == "-map"@ && input_args(wav_path)[16] == "1:a"@,
        i != 12 ==> input_args(wav_path)[i] == input_args(other_path)[i],
{
}

// ── Failures ────────────────────────────────────────────────────────────────

/// Of what ffmpeg wrote, the last line that is not blank is told, whatever blank lines
/// stand behind it. The words are fixed only if all lines are blank.
pub proof fn lemma_last_line_told(list: Seq<Seq<char>>, i: int)
    requires
        0 <= i < list.len(),
        trim(list[i]).len() > 0,
        forall|k: int| i < k < list.len() ==> trim(#[trigger] list[k]).len() == 0,
    ensures
        last_written(list) == Some(list[i]),
    decreases list.len(),
{
    if i < list.len() - 1 {
        assert(trim(list[list.len() - 1]).len() == 0);
        lemma_last_line_told(list.drop_last(), i);
    }
}

/// Without such a line there is none to tell.
pub proof fn lemma_no_line_told(list: Seq<Seq<char>>)
    requires
        forall|k: int| 0 <= k < list.len() ==> trim(#[trigger] list[k]).len() == 0,
    ensures
        last_written(list) is None,
    decreases list.len(),
{
    if list.len() > 0 {
        assert(trim(list[list.len() - 1]).len() == 0);
        lemma_no_line_told(list.drop_last());
    }
}

/// What is said of a failed run ends in the last line that ffmpeg wrote.
pub proof fn lemma_failure_tells_line(text: Seq<char>, i: int)
    requires
        0 <= i < lines(text).len(),
        trim(lines(text)[i]).len() > 0,
        forall|k: int| i < k < lines(text).len() ==> trim(#[trigger] lines(text)[k]).len() == 0,
    ensures
        ends_with(failure_text(text), lines(text)[i]),
{
    lemma_last_line_told(lines(text), i);
    let line = lines(text)[i];
    let all = failure_text(text);
    assert(all.subrange(all.len() - line.len(), all.len() as int) =~= line);
}

/// That ffmpeg could not be started is told with its path and the reason, and with each
/// of the places where it was looked for.
pub proof fn lemma_spawn_tells_places(
    ffmpeg: Seq<char>,
    reason: Seq<char>,
    searched: Seq<Seq<char>>,
    i: int,
)
    requires
        0 <= i < searched.len(),
    ensures
        occurs(spawn_text(ffmpeg, reason, searched), ffmpeg + seq![':', ' '] + reason),
        occurs(spawn_text(ffmpeg, reason, searched), searched[i]),
{
    reveal_strlit(": ");
    let all = spawn_text(ffmpeg, reason, searched);
    let told = ffmpeg + seq![':', ' '] + reason;
    let n = "Failed to spawn ffmpeg at "@.len() as int;
    assert(all.subrange(n, n + told.len()) =~= told);
    assert(stands_at(all, told, n));
    let before = "Failed to spawn ffmpeg at "@ + ffmpeg + ": "@ + reason + "\nSearched: "@;
    let after = "\nInstall ffmpeg and make sure it is available to the app."@;
    lemma_joined_holds(searched, ", "@, i);
    lemma_occurs_within(before, joined(searched, ", "@), after, searched[i]);
    assert(all =~= before + joined(searched, ", "@) + after);
}

/// A run is without error exactly if it was stopped on request or ffmpeg itself
/// reported success. The message of a failed step ends in its reason; where ffmpeg had
/// its say, that counts instead.
pub proof fn lemma_run_errors(end: RunEnd)
    ensures
        run_error(end) is None <==> end is Cancelled || (end matches RunEnd::Exited { success, .. }
            && success),
        end matches RunEnd::WavFailed(reason) ==> ends_with(run_error(end)->Some_0, reason@),
        end matches RunEnd::WaitFailed(reason) ==> ends_with(run_error(end)->Some_0, reason@),
        end matches RunEnd::WriteFailed { reason, stderr } ==> match stderr {
            None => ends_with(run_error(end)->Some_0, reason@),
            Some(bytes) => run_error(end) == run_error(
                RunEnd::Exited { success: false, stderr: bytes },
            ),
        },
        end matches RunEnd::Exited { success, stderr } && !success ==> run_error(end) == Some(
            failure_text(lossy_text(end->Exited_stderr@)),
        ),
{
    match end {
        RunEnd::WavFailed(reason) => {
            let m = run_error(end)->Some_0;
            assert(m.subrange(m.len() - reason@.len(), m.len() as int) =~= reason@);
        },
        RunEnd::WaitFailed(reason) => {
            let m = run_error(end)->Some_0;
            assert(m.subrange(m.len() - reason@.len(), m.len() as int) =~= reason@);
        },
        RunEnd::WriteFailed { reason, stderr } => {
            if stderr is None {
                let m = run_error(end)->Some_0;
                assert(m.subrange(m.len() - reason@.len(), m.len() as int) =~= reason@);
            }
        },
        _ => {},
    }
}

} // verus!
