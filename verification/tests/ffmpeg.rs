use cdg_player::ffmpeg::{
    candidate_order, choose_av1_encoder, describe_failure, encoder_in_listing, ffmpeg_binary_name,
    ffmpeg_command, ffmpeg_error_message, ffmpeg_fallback_locations, ffmpeg_local_candidates,
    first_present, run_outcome, spawn_error_message, Av1Encoder, Base, Location, Os, RunEnd,
};

fn written(list: &[Location]) -> Vec<(Base, String)> {
    list.iter().map(|l| (l.base, l.parts.join("/"))).collect()
}

fn place(base: Base, path: &str) -> (Base, String) {
    (base, path.to_string())
}

#[test]
fn binary_names() {
    assert_eq!(ffmpeg_binary_name(Os::Windows), "ffmpeg.exe");
    assert_eq!(ffmpeg_binary_name(Os::MacOs), "ffmpeg");
    assert_eq!(ffmpeg_binary_name(Os::Other), "ffmpeg");
}

#[test]
fn places_near_the_program() {
    assert_eq!(
        written(&ffmpeg_local_candidates(Os::Windows, true, true)),
        vec![
            place(Base::CurrentDir, "ffmpeg.exe"),
            place(Base::CurrentDir, "bundle/ffmpeg.exe"),
            place(Base::ExeDir, "ffmpeg.exe"),
            place(Base::ExeDir, "bundle/ffmpeg.exe"),
            place(Base::ExeDir, "ffmpeg/ffmpeg.exe"),
        ]
    );
    assert_eq!(ffmpeg_local_candidates(Os::Other, false, true).len(), 3);
    assert!(ffmpeg_local_candidates(Os::Other, false, false).is_empty());
}

#[test]
fn places_of_package_managers() {
    assert_eq!(
        written(&ffmpeg_fallback_locations(Os::MacOs, true, true)),
        vec![
            place(Base::Absolute, "/opt/homebrew/bin/ffmpeg"),
            place(Base::Absolute, "/usr/local/bin/ffmpeg"),
            place(Base::Absolute, "/opt/local/bin/ffmpeg"),
        ]
    );
    assert_eq!(
        written(&ffmpeg_fallback_locations(Os::Other, false, false)),
        vec![
            place(Base::Absolute, "/usr/local/bin/ffmpeg"),
            place(Base::Absolute, "/usr/bin/ffmpeg"),
            place(Base::Absolute, "/snap/bin/ffmpeg"),
        ]
    );
    assert_eq!(
        written(&ffmpeg_fallback_locations(Os::Windows, true, true)),
        vec![
            place(Base::ProgramData, "chocolatey/bin/ffmpeg.exe"),
            place(Base::UserProfile, "scoop/shims/ffmpeg.exe"),
            place(Base::UserProfile, "AppData/Local/Microsoft/WinGet/Links/ffmpeg.exe"),
        ]
    );
    assert!(ffmpeg_fallback_locations(Os::Windows, false, false).is_empty());
}

#[test]
fn places_are_tried_once_and_in_order() {
    assert_eq!(
        candidate_order(Some(7), &vec![1, 7, 2], &vec![2, 3, 3], &vec![1, 4]),
        vec![7, 1, 2, 3, 4]
    );
    assert_eq!(candidate_order(None, &vec![], &vec![], &vec![]), Vec::<u64>::new());
    assert_eq!(first_present(&vec![false, true, true]), Some(1));
    assert_eq!(first_present(&vec![false]), None);
}

#[test]
fn encoders() {
    assert_eq!(
        Av1Encoder::SvtAv1.ffmpeg_args(),
        ["-c:v", "libsvtav1", "-crf", "30", "-b:v", "0", "-preset", "6"]
    );
    assert_eq!(
        Av1Encoder::AomAv1.ffmpeg_args(),
        ["-c:v", "libaom-av1", "-crf", "30", "-b:v", "0", "-cpu-used", "6"]
    );
    assert_eq!(encoder_in_listing(" V libaom-av1 x\n V libsvtav1 y"), Av1Encoder::SvtAv1);
    assert_eq!(encoder_in_listing(" V libaom-av1 x"), Av1Encoder::AomAv1);
    assert_eq!(encoder_in_listing("libaom-av1"), Av1Encoder::SvtAv1);
    assert_eq!(choose_av1_encoder(Some(b"\xFF libaom-av1 ")), Av1Encoder::AomAv1);
    assert_eq!(choose_av1_encoder(Some(b"")), Av1Encoder::SvtAv1);
    assert_eq!(choose_av1_encoder(None), Av1Encoder::SvtAv1);
}

#[test]
fn command_line() {
    let args = ffmpeg_command(Av1Encoder::AomAv1, "a.wav", "b.mkv");
    let expected = "-y -f rawvideo -pixel_format rgb24 -video_size 300x216 -framerate 30 -i pipe:0 \
        -i a.wav -map 0:v -map 1:a -c:a flac -compression_level 8 -c:v libaom-av1 -crf 30 -b:v 0 \
        -cpu-used 6 b.mkv";
    assert_eq!(args.join(" "), expected);
    assert_eq!(args.len(), 30);
}

#[test]
fn failures_name_the_last_line() {
    assert_eq!(describe_failure("one\ntwo\n  \n\n"), "ffmpeg failed: two");
    assert_eq!(describe_failure(" \n"), "ffmpeg failed: ffmpeg exited with an unknown error.");
    assert_eq!(ffmpeg_error_message(b"bad \xFF byte\r\n"), "ffmpeg failed: bad \u{FFFD} byte");
    assert_eq!(ffmpeg_error_message(b""), "ffmpeg failed: ffmpeg exited with an unknown error.");
}

#[test]
fn failure_to_start() {
    assert_eq!(
        spawn_error_message("/x/ffmpeg", "not found", &vec!["/a".to_string(), "/b".to_string()]),
        "Failed to spawn ffmpeg at /x/ffmpeg: not found\nSearched: /a, /b\nInstall ffmpeg and make \
         sure it is available to the app."
    );
}

#[test]
fn ends_of_a_run() {
    let check = |end: RunEnd, message: Option<&str>, wav: bool, out: bool| {
        let r = run_outcome(&end);
        assert_eq!(r.result.err(), message.map(|m| m.to_string()));
        assert_eq!((r.remove_wav, r.remove_out), (wav, out));
    };
    let text = |s: &str| s.to_string();
    check(RunEnd::WavFailed(text("full")), Some("WAV write failed: full"), false, false);
    let spawn = RunEnd::SpawnFailed {
        ffmpeg: text("f"),
        reason: text("gone"),
        searched: vec![text("/a")],
    };
    check(
        spawn,
        Some(
            "Failed to spawn ffmpeg at f: gone\nSearched: /a\nInstall ffmpeg and make sure it is \
             available to the app.",
        ),
        false,
        false,
    );
    let broken = RunEnd::WriteFailed { reason: text("pipe"), stderr: Some(b"a\nb\n".to_vec()) };
    check(broken, Some("ffmpeg failed: b"), true, true);
    let lost = RunEnd::WriteFailed { reason: text("pipe"), stderr: None };
    check(lost, Some("ffmpeg pipe write failed: pipe"), false, false);
    check(RunEnd::Cancelled, None, true, true);
    check(RunEnd::WaitFailed(text("x")), Some("ffmpeg wait failed: x"), false, false);
    check(RunEnd::Exited { success: true, stderr: b"noise".to_vec() }, None, true, false);
    let bad = RunEnd::Exited { success: false, stderr: b"bad".to_vec() };
    check(bad, Some("ffmpeg failed: bad"), true, false);
}
