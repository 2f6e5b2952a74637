//! Running ffmpeg: where it is looked for, its command line, and what is said
//! when it fails.

use crate::export::EXPORT_FPS;
use crate::renderer::{HEIGHT, WIDTH};
use crate::text::{
    chars_of, contains, decimal, decode_lossy, join, joined, lines, lines_of, lossy_text,
    number_text, occurs, texts, trim, trim_range,
};
use vstd::prelude::*;
use vstd::utf8::{decode_utf8, valid_utf8};

verus! {

// ── Where it is ─────────────────────────────────────────────────────────────

/// The operating systems that are told apart.
#[derive(Debug, Clone, Copy, PartialEq, Eq, Structural)]
pub enum Os {
    MacOs,
    Windows,
    Other,
}

/// The file name of ffmpeg.
pub open spec fn binary_name(os: Os) -> Seq<char> {
    if os == Os::Windows {
        "ffmpeg.exe"@
    } else {
        "ffmpeg"@
    }
}

pub fn ffmpeg_binary_name(os: Os) -> (r: &'static str)
    ensures
        r@ == binary_name(os),
{
    if os == Os::Windows {
        "ffmpeg.exe"
    } else {
        "ffmpeg"
    }
}

/// What a path starts from.
#[derive(Debug, Clone, Copy, PartialEq, Eq, Structural)]
pub enum Base {
    /// The path stands for itself.
    Absolute,
    CurrentDir,
    /// The directory of the running program.
    ExeDir,
    /// The directory that the environment names as `ProgramData`.
    ProgramData,
    /// The directory that the environment names as `USERPROFILE`.
    UserProfile,
}

/// A place where ffmpeg may be: path components to be joined to a base.
pub struct Location {
    pub base: Base,
    pub parts: Vec<String>,
}

/// The contents of a list of locations.
pub open spec fn locations(list: Seq<Location>) -> Seq<(Base, Seq<Seq<char>>)> {
    list.map_values(|l: Location| (l.base, texts(l.parts@)))
}

/// Appends a location.
fn push_location(list: &mut Vec<Location>, base: Base, parts: &[&str])
    ensures
        locations(final(list)@) == locations(old(list)@).push(
            (base, parts@.map_values(|s: &str| s@)),
        ),
{
    let mut owned: Vec<String> = Vec::new();
    let mut i: usize = 0;
    let ghost all = parts@.map_values(|s: &str| s@);
    while i < parts.len()
        invariant
            i <= parts@.len(),
            all == parts@.map_values(|s: &str| s@),
            texts(owned@) == all.take(i as int),
        decreases parts@.len() - i,
    {
        let ghost before = texts(owned@);
        owned.push(parts[i].to_string());
        assert(texts(owned@) =~= before.push(parts@[i as int]@));
        i += 1;
        assert(texts(owned@) =~= all.take(i as int));
    }
    assert(all.take(i as int) =~= all);
    list.push(Location { base, parts: owned });
    assert(locations(list@) =~= locations(old(list)@).push((base, all)));
}

/// The places near the program: the current directory and the program's own, as
/// far as they are known.
pub open spec fn local_locations(
    os: Os,
    current_dir: bool,
    exe_dir: bool,
) -> Seq<(Base, Seq<Seq<char>>)> {
    let name = binary_name(os);
    (if current_dir {
        seq![(Base::CurrentDir, seq![name]), (Base::CurrentDir, seq!["bundle"@, name])]
    } else {
        seq![]
    }) + (if exe_dir {
        seq![
            (Base::ExeDir, seq![name]),
            (Base::ExeDir, seq!["bundle"@, name]),
            (Base::ExeDir, seq!["ffmpeg"@, name]),
        ]
    } else {
        seq![]
    })
}

/// Lists the places near the program. The arguments tell which of the two
/// directories are known.
pub fn ffmpeg_local_candidates(os: Os, current_dir: bool, exe_dir: bool) -> (r: Vec<Location>)
    ensures
        locations(r@) == local_locations(os, current_dir, exe_dir),
{
    let name: &'static str = ffmpeg_binary_name(os);
    let mut r: Vec<Location> = Vec::new();
    if current_dir {
        push_location(&mut r, Base::CurrentDir, &[name]);
        push_location(&mut r, Base::CurrentDir, &["bundle", name]);
    }
    if exe_dir {
        push_location(&mut r, Base::ExeDir, &[name]);
        push_location(&mut r, Base::ExeDir, &["bundle", name]);
        push_location(&mut r, Base::ExeDir, &["ffmpeg", name]);
    }
    assert(locations(r@) =~~= local_locations(os, current_dir, exe_dir));
    r
}

/// The places where package managers put ffmpeg, as far as the directories that
/// the environment names are known.
pub open spec fn fallback_locations(
    os: Os,
    program_data: bool,
    user_profile: bool,
) -> Seq<(Base, Seq<Seq<char>>)> {
    match os {
        Os::MacOs => seq![
            (Base::Absolute, seq!["/opt/homebrew/bin/ffmpeg"@]),
            (Base::Absolute, seq!["/usr/local/bin/ffmpeg"@]),
            (Base::Absolute, seq!["/opt/local/bin/ffmpeg"@]),
        ],
        Os::Windows => (if program_data {
            seq![(Base::ProgramData, seq!["chocolatey"@, "bin"@, "ffmpeg.exe"@])]
        } else {
            seq![]
        }) + (if user_profile {
            seq![
                (Base::UserProfile, seq!["scoop"@, "shims"@, "ffmpeg.exe"@]),
                (
                    Base::UserProfile,
                    seq![
                        "AppData"@,
                        "Local"@,
                        "Microsoft"@,
                        "WinGet"@,
                        "Links"@,
                        "ffmpeg.exe"@,
                    ],
                ),
            ]
        } else {
            seq![]
        }),
        Os::Other => seq![
            (Base::Absolute, seq!["/usr/local/bin/ffmpeg"@]),
            (Base::Absolute, seq!["/usr/bin/ffmpeg"@]),
            (Base::Absolute, seq!["/snap/bin/ffmpeg"@]),
        ],
    }
}

/// Lists the places where package managers put ffmpeg. The arguments tell which
/// of the two directories the environment names.
pub fn ffmpeg_fallback_locations(os: Os, program_data: bool, user_profile: bool) -> (r: Vec<
    Location,
>)
    ensures
        locations(r@) == fallback_locations(os, program_data, user_profile),
{
    let mut r: Vec<Location> = Vec::new();
    match os {
        Os::MacOs => {
            push_location(&mut r, Base::Absolute, &["/opt/homebrew/bin/ffmpeg"]);
            push_location(&mut r, Base::Absolute, &["/usr/local/bin/ffmpeg"]);
            push_location(&mut r, Base::Absolute, &["/opt/local/bin/ffmpeg"]);
        },
        Os::Windows => {
            if program_data {
                push_location(&mut r, Base::ProgramData, &["chocolatey", "bin", "ffmpeg.exe"]);
            }
            if user_profile {
                push_location(&mut r, Base::UserProfile, &["scoop", "shims", "ffmpeg.exe"]);
                push_location(
                    &mut r,
                    Base::UserProfile,
                    &["AppData", "Local", "Microsoft", "WinGet", "Links", "ffmpeg.exe"],
                );
            }
        },
        Os::Other => {
            push_location(&mut r, Base::Absolute, &["/usr/local/bin/ffmpeg"]);
            push_location(&mut r, Base::Absolute, &["/usr/bin/ffmpeg"]);
            push_location(&mut r, Base::Absolute, &["/snap/bin/ffmpeg"]);
        },
    }
    assert(locations(r@) =~~= fallback_locations(os, program_data, user_profile));
    r
}

/// The items of a list, each where it first occurs.
pub open spec fn distinct(list: Seq<u64>) -> Seq<u64>
    decreases list.len(),
{
    if list.len() == 0 {
        seq![]
    } else if list.drop_last().contains(list.last()) {
        distinct(list.drop_last())
    } else {
        distinct(list.drop_last()).push(list.last())
    }
}

/// Leaving out repetitions keeps exactly the items of the list, each once.
pub proof fn lemma_distinct(list: Seq<u64>)
    ensures
        distinct(list).no_duplicates(),
        forall|x: u64| distinct(list).contains(x) <==> list.contains(x),
    decreases list.len(),
{
    if list.len() > 0 {
        let rest = list.drop_last();
        lemma_distinct(rest);
        assert forall|x: u64| distinct(list).contains(x) <==> list.contains(x) by {
            if rest.contains(x) {
                assert(distinct(rest).contains(x));
                let j = choose|j: int| 0 <= j < distinct(rest).len() && distinct(rest)[j] == x;
                assert(distinct(list)[j] == x);
            } else if list.contains(x) {
                let i = choose|i: int| 0 <= i < list.len() && list[i] == x;
                assert(i < rest.len() ==> rest[i] == x);
                assert(distinct(list).last() == x);
            }
            if distinct(list).contains(x) {
                let j = choose|j: int| 0 <= j < distinct(list).len() && distinct(list)[j] == x;
                if j < distinct(rest).len() {
                    assert(distinct(rest)[j] == x);
                    assert(rest.contains(x));
                    let i = choose|i: int| 0 <= i < rest.len() && rest[i] == x;
                    assert(list[i] == x);
                } else {
                    assert(list.last() == x);
                }
            }
        }
        if !rest.contains(list.last()) {
            assert forall|i: int, j: int|
                0 <= i < distinct(list).len() && 0 <= j < distinct(list).len() && i
                    != j implies distinct(list)[i] != distinct(list)[j] by {
                let k = if i < j {
                    i
                } else {
                    j
                };
                assert(distinct(rest).contains(distinct(rest)[k]));
            }
        }
    } else {
        assert forall|x: u64| distinct(list).contains(x) <==> list.contains(x) by {}
    }
}

/// Whether a list holds an item.
fn holds(list: &Vec<u64>, item: u64) -> (r: bool)
    ensures
        r == list@.contains(item),
{
    let mut i: usize = 0;
    while i < list.len()
        invariant
            i <= list@.len(),
            forall|k: int| 0 <= k < i ==> list@[k] != item,
        decreases list@.len() - i,
    {
        if list[i] == item {
            return true;
        }
        i += 1;
    }
    false
}

/// Appends the items of `more` to `list`.
fn append_all(list: &mut Vec<u64>, more: &Vec<u64>)
    ensures
        final(list)@ == old(list)@ + more@,
{
    let mut i: usize = 0;
    while i < more.len()
        invariant
            i <= more@.len(),
            list@ =~= old(list)@ + more@.take(i as int),
        decreases more@.len() - i,
    {
        list.push(more[i]);
        i += 1;
    }
}

/// The order in which the places are tried: the one that the environment
/// variable `FFMPEG` names, those near the program, the directories of `PATH`,
/// and those of package managers, each only once. Places are given by numbers,
/// equal for equal paths.
pub fn candidate_order(
    env: Option<u64>,
    local: &Vec<u64>,
    path: &Vec<u64>,
    fallback: &Vec<u64>,
) -> (r: Vec<u64>)
    ensures
        r@ == distinct(
            (match env {
                Some(place) => seq![place],
                None => seq![],
            }) + local@ + path@ + fallback@,
        ),
{
    let ghost named: Seq<u64> = match env {
        Some(place) => seq![place],
        None => seq![],
    };
    let mut all: Vec<u64> = Vec::new();
    if let Some(place) = env {
        all.push(place);
    }
    assert(all@ =~= named);
    append_all(&mut all, local);
    append_all(&mut all, path);
    append_all(&mut all, fallback);
    let mut r: Vec<u64> = Vec::new();
    let mut i: usize = 0;
    while i < all.len()
        invariant
            i <= all@.len(),
            r@ == distinct(all@.take(i as int)),
        decreases all@.len() - i,
    {
        let item: u64 = all[i];
        proof {
            lemma_distinct(all@.take(i as int));
            assert(all@.take(i + 1).drop_last() =~= all@.take(i as int));
        }
        if !holds(&r, item) {
            r.push(item);
        }
        i += 1;
    }
    assert(all@.take(i as int) =~= all@);
    r
}

/// The first place at which there is a file, if there is one.
pub fn first_present(is_file: &Vec<bool>) -> (r: Option<usize>)
    ensures
        match r {
            Some(k) => k < is_file@.len() && is_file@[k as int] && forall|j: int|
                0 <= j < k ==> !is_file@[j],
            None => forall|j: int| 0 <= j < is_file@.len() ==> !is_file@[j],
        },
{
    let mut i: usize = 0;
    while i < is_file.len()
        invariant
            i <= is_file@.len(),
            forall|j: int| 0 <= j < i ==> !is_file@[j],
        decreases is_file@.len() - i,
    {
        if is_file[i] {
            return Some(i);
        }
        i += 1;
    }
    None
}

// ── The encoder ─────────────────────────────────────────────────────────────

/// The AV1 encoders that can be used.
#[derive(Debug, Clone, Copy, PartialEq, Eq, Structural)]
pub enum Av1Encoder {
    SvtAv1,
    AomAv1,
}

/// The command line arguments that select and set up an encoder.
pub open spec fn encoder_args(encoder: Av1Encoder) -> Seq<Seq<char>> {
    match encoder {
        Av1Encoder::SvtAv1 => seq![
            "-c:v"@,
            "libsvtav1"@,
            "-crf"@,
            "30"@,
            "-b:v"@,
            "0"@,
            "-preset"@,
            "6"@,
        ],
        Av1Encoder::AomAv1 => seq![
            "-c:v"@,
            "libaom-av1"@,
            "-crf"@,
            "30"@,
            "-b:v"@,
            "0"@,
            "-cpu-used"@,
            "6"@,
        ],
    }
}

/// The texts that a list of string slices holds.
pub open spec fn slice_texts(list: Seq<&'static str>) -> Seq<Seq<char>> {
    list.map_values(|s: &'static str| s@)
}

impl Av1Encoder {
    pub fn ffmpeg_args(&self) -> (r: [&'static str; 8])
        ensures
            slice_texts(r@) == encoder_args(*self),
    {
        match self {
            Av1Encoder::SvtAv1 => {
                let r: [&'static str; 8] = [
                    "-c:v",
                    "libsvtav1",
                    "-crf",
                    "30",
                    "-b:v",
                    "0",
                    "-preset",
                    "6",
                ];
                assert(slice_texts(r@) =~= encoder_args(*self));
                r
            },
            Av1Encoder::AomAv1 => {
                let r: [&'static str; 8] = [
                    "-c:v",
                    "libaom-av1",
                    "-crf",
                    "30",
                    "-b:v",
                    "0",
                    "-cpu-used",
                    "6",
                ];
                assert(slice_texts(r@) =~= encoder_args(*self));
                r
            },
        }
    }
}

/// The encoder to use, given the list of encoders that ffmpeg has: SVT-AV1,
/// unless only the other is listed.
pub open spec fn listed_encoder(listing: Seq<char>) -> Av1Encoder {
    if occurs(listing, " libsvtav1 "@) {
        Av1Encoder::SvtAv1
    } else if occurs(listing, " libaom-av1 "@) {
        Av1Encoder::AomAv1
    } else {
        Av1Encoder::SvtAv1
    }
}

/// Chooses the encoder from the text of ffmpeg's encoder list.
pub fn encoder_in_listing(listing: &str) -> (r: Av1Encoder)
    ensures
        r == listed_encoder(listing@),
{
    let text: Vec<char> = chars_of(listing);
    if contains(&text, &chars_of(" libsvtav1 ")) {
        Av1Encoder::SvtAv1
    } else if contains(&text, &chars_of(" libaom-av1 ")) {
        Av1Encoder::AomAv1
    } else {
        Av1Encoder::SvtAv1
    }
}

/// Chooses the encoder from what ffmpeg wrote when asked for its encoders;
/// `None` if it could not be asked.
pub fn choose_av1_encoder(stdout: Option<&[u8]>) -> (r: Av1Encoder)
    ensures
        r == match stdout {
            Some(bytes) => listed_encoder(lossy_text(bytes@)),
            None => Av1Encoder::SvtAv1,
        },
        stdout matches Some(bytes) && valid_utf8(bytes@) ==> r == listed_encoder(
            decode_utf8(stdout->Some_0@),
        ),
{
    match stdout {
        Some(bytes) => encoder_in_listing(decode_lossy(bytes).as_str()),
        None => Av1Encoder::SvtAv1,
    }
}

/// The arguments before the encoder's own: raw RGB24 video on standard input and
/// PCM audio from a file, both mapped, and FLAC for the audio.
pub open spec fn input_args(wav_path: Seq<char>) -> Seq<Seq<char>> {
    seq![
        "-y"@,
        "-f"@,
        "rawvideo"@,
        "-pixel_format"@,
        "rgb24"@,
        "-video_size"@,
        decimal(WIDTH as nat) + "x"@ + decimal(HEIGHT as nat),
        "-framerate"@,
        decimal(EXPORT_FPS as nat),
        "-i"@,
        "pipe:0"@,
        "-i"@,
        wav_path,
        "-map"@,
        "0:v"@,
        "-map"@,
        "1:a"@,
        "-c:a"@,
        "flac"@,
        "-compression_level"@,
        "8"@,
    ]
}

/// The command line arguments of an export.
pub fn ffmpeg_command(encoder: Av1Encoder, wav_path: &str, out_path: &str) -> (r: Vec<String>)
    ensures
        texts(r@) == (input_args(wav_path@) + encoder_args(encoder)).push(out_path@),
{
    let mut size: String = number_text(WIDTH as u64);
    size.append("x");
    size.append(number_text(HEIGHT as u64).as_str());
    let mut r: Vec<String> = Vec::new();
    r.push("-y".to_string());
    r.push("-f".to_string());
    r.push("rawvideo".to_string());
    r.push("-pixel_format".to_string());
    r.push("rgb24".to_string());
    r.push("-video_size".to_string());
    r.push(size);
    r.push("-framerate".to_string());
    r.push(number_text(EXPORT_FPS as u64));
    r.push("-i".to_string());
    r.push("pipe:0".to_string());
    r.push("-i".to_string());
    r.push(wav_path.to_string());
    r.push("-map".to_string());
    r.push("0:v".to_string());
    r.push("-map".to_string());
    r.push("1:a".to_string());
    r.push("-c:a".to_string());
    r.push("flac".to_string());
    r.push("-compression_level".to_string());
    r.push("8".to_string());
    assert(texts(r@) =~= input_args(wav_path@));
    let args: [&'static str; 8] = encoder.ffmpeg_args();
    let mut i: usize = 0;
    while i < 8
        invariant
            i <= 8,
            slice_texts(args@) == encoder_args(encoder),
            texts(r@) == input_args(wav_path@) + encoder_args(encoder).take(i as int),
        decreases 8 - i,
    {
        let ghost before = texts(r@);
        r.push(args[i].to_string());
        assert(slice_texts(args@)[i as int] == args@[i as int]@);
        assert(texts(r@) =~= before.push(args@[i as int]@));
        i += 1;
        assert(texts(r@) =~= input_args(wav_path@) + encoder_args(encoder).take(i as int));
    }
    assert(encoder_args(encoder).take(8) =~= encoder_args(encoder));
    r.push(out_path.to_string());
    assert(texts(r@) =~= (input_args(wav_path@) + encoder_args(encoder)).push(out_path@));
    r
}

// ── Failures ────────────────────────────────────────────────────────────────

/// The last of the lines that is not blank, if there is one.
pub open spec fn last_written(list: Seq<Seq<char>>) -> Option<Seq<char>>
    decreases list.len(),
{
    if list.len() == 0 {
        None
    } else if trim(list.last()).len() > 0 {
        Some(list.last())
    } else {
        last_written(list.drop_last())
    }
}

/// What is said of a failed run of ffmpeg that wrote `text`.
pub open spec fn failure_text(text: Seq<char>) -> Seq<char> {
    "ffmpeg failed: "@ + match last_written(lines(text)) {
        Some(line) => line,
        None => "ffmpeg exited with an unknown error."@,
    }
}

/// Words the failure of a run of ffmpeg that wrote `text`.
pub fn describe_failure(text: &str) -> (r: String)
    ensures
        r@ == failure_text(text@),
{
    let list: Vec<String> = lines_of(text);
    let ghost all = lines(text@);
    let mut r: String = "ffmpeg failed: ".to_string();
    let mut i: usize = list.len();
    assert(all.take(i as int) =~= all);
    while i > 0
        invariant
            i <= list@.len(),
            all == texts(list@),
            all == lines(text@),
            r@ == "ffmpeg failed: "@,
            last_written(all) == last_written(all.take(i as int)),
        decreases i,
    {
        let chars: Vec<char> = chars_of(list[i - 1].as_str());
        let (a, b) = trim_range(&chars, 0, chars.len());
        assert(chars@.subrange(0, chars@.len() as int) =~= all[i - 1]);
        assert(all.take(i as int).last() == all[i - 1]);
        assert(all.take(i as int).drop_last() =~= all.take(i - 1));
        if a < b {
            r.append(list[i - 1].as_str());
            return r;
        }
        i -= 1;
    }
    r.append("ffmpeg exited with an unknown error.");
    r
}

/// Words the failure of a run of ffmpeg from what it wrote to standard error.
pub fn ffmpeg_error_message(stderr: &[u8]) -> (r: String)
    ensures
        r@ == failure_text(lossy_text(stderr@)),
        valid_utf8(stderr@) ==> r@ == failure_text(decode_utf8(stderr@)),
{
    describe_failure(decode_lossy(stderr).as_str())
}

/// That ffmpeg could not be started, with all the places where it was looked for.
pub open spec fn spawn_text(
    ffmpeg: Seq<char>,
    reason: Seq<char>,
    searched: Seq<Seq<char>>,
) -> Seq<char> {
    "Failed to spawn ffmpeg at "@ + ffmpeg + ": "@ + reason + "\nSearched: "@ + joined(
        searched,
        ", "@,
    ) + "\nInstall ffmpeg and make sure it is available to the app."@
}

/// Words that ffmpeg could not be started, with all the places where it was
/// looked for.
pub fn spawn_error_message(ffmpeg: &str, reason: &str, searched: &Vec<String>) -> (r: String)
    ensures
        r@ == spawn_text(ffmpeg@, reason@, texts(searched@)),
{
    let mut r: String = "Failed to spawn ffmpeg at ".to_string();
    r.append(ffmpeg);
    r.append(": ");
    r.append(reason);
    r.append("\nSearched: ");
    r.append(join(searched, ", ").as_str());
    r.append("\nInstall ffmpeg and make sure it is available to the app.");
    r
}

// ── The end of a run ────────────────────────────────────────────────────────

/// How a run of ffmpeg came to its end.
pub enum RunEnd {
    /// The audio file could not be written.
    WavFailed(String),
    /// ffmpeg, looked for in all these places, could not be started.
    SpawnFailed { ffmpeg: String, reason: String, searched: Vec<String> },
    /// A frame could not be handed over. What ffmpeg wrote to standard error is
    /// there if it could be waited for.
    WriteFailed { reason: String, stderr: Option<Vec<u8>> },
    /// It was stopped on request.
    Cancelled,
    /// It could not be waited for.
    WaitFailed(String),
    /// It ended by itself.
    Exited { success: bool, stderr: Vec<u8> },
}

/// What follows from the end of a run.
pub struct RunOutcome {
    /// Success, or a message.
    pub result: Result<(), String>,
    /// Whether the audio file is removed.
    pub remove_wav: bool,
    /// Whether the exported file is removed.
    pub remove_out: bool,
}

/// The message for a run that failed; a run that was stopped has not.
pub open spec fn run_error(end: RunEnd) -> Option<Seq<char>> {
    match end {
        RunEnd::WavFailed(reason) => Some("WAV write failed: "@ + reason@),
        RunEnd::SpawnFailed { ffmpeg, reason, searched } => Some(
            spawn_text(ffmpeg@, reason@, texts(searched@)),
        ),
        RunEnd::WriteFailed { reason, stderr } => match stderr {
            Some(bytes) => Some(failure_text(lossy_text(bytes@))),
            None => Some("ffmpeg pipe write failed: "@ + reason@),
        },
        RunEnd::Cancelled => None,
        RunEnd::WaitFailed(reason) => Some("ffmpeg wait failed: "@ + reason@),
        RunEnd::Exited { success, stderr } => if success {
            None
        } else {
            Some(failure_text(lossy_text(stderr@)))
        },
    }
}

/// `start` followed by `end`.
fn phrase(start: &str, end: &String) -> (r: String)
    ensures
        r@ == start@ + end@,
{
    let mut r: String = start.to_string();
    r.append(end.as_str());
    r
}

/// Decides what follows from the end of a run. The audio file goes once ffmpeg is
/// through with it; what was exported goes too if it is incomplete.
pub fn run_outcome(end: &RunEnd) -> (r: RunOutcome)
    ensures
        match r.result {
            Ok(_) => run_error(*end) is None,
            Err(message) => run_error(*end) == Some(message@),
        },
        r.remove_out == (match *end {
            RunEnd::WriteFailed { stderr, .. } => stderr is Some,
            RunEnd::Cancelled => true,
            _ => false,
        }),
        r.remove_wav == (r.remove_out || *end is Exited),
{
    match end {
        RunEnd::WavFailed(reason) => RunOutcome {
            result: Err(phrase("WAV write failed: ", reason)),
            remove_wav: false,
            remove_out: false,
        },
        RunEnd::SpawnFailed { ffmpeg, reason, searched } => RunOutcome {
            result: Err(spawn_error_message(ffmpeg.as_str(), reason.as_str(), searched)),
            remove_wav: false,
            remove_out: false,
        },
        RunEnd::WriteFailed { reason, stderr } => match stderr {
            Some(bytes) => RunOutcome {
                result: Err(ffmpeg_error_message(bytes.as_slice())),
                remove_wav: true,
                remove_out: true,
            },
            None => RunOutcome {
                result: Err(phrase("ffmpeg pipe write failed: ", reason)),
                remove_wav: false,
                remove_out: false,
            },
        },
        RunEnd::Cancelled => RunOutcome { result: Ok(()), remove_wav: true, remove_out: true },
        RunEnd::WaitFailed(reason) => RunOutcome {
            result: Err(phrase("ffmpeg wait failed: ", reason)),
            remove_wav: false,
            remove_out: false,
        },
        RunEnd::Exited { success, stderr } => RunOutcome {
            result: if *success {
                Ok(())
            } else {
                Err(ffmpeg_error_message(stderr.as_slice()))
            },
            remove_wav: true,
            remove_out: false,
        },
    }
}

} // verus!
