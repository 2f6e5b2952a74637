use cdg_player::export::{
    after_frame, framebuffer, next_step, plan_track, rgb24_bytes, rgba32_bytes,
    sanitize_output_stem, step_after_track, track_file_stem, ExportEvent, ExportState, ExportStep,
    FrameExporter, FrameStep, EXPORT_FPS,
};
use cdg_player::playback::{replay, track_packets};

fn raw(command: u8, instruction: u8, data: &[u8]) -> Vec<u8> {
    let mut packet = vec![0u8; 24];
    packet[0] = command;
    packet[1] = instruction;
    packet[4..4 + data.len()].copy_from_slice(data);
    packet
}

// Twenty-four packets; every one of them changes the background.
fn disc() -> Vec<u8> {
    let mut d = raw(9, 30, &[0, 0, 0x3C, 0, 0x03, 0x30, 0, 0x0F]);
    for i in 1..24u8 {
        d.extend(raw(9, 1, &[i % 4]));
    }
    d
}

#[test]
fn frames_per_second() {
    assert_eq!(EXPORT_FPS, 30);
}

#[test]
fn pixel_bytes() {
    let fb = vec![0x00010203, 0x00FFFEFD];
    assert_eq!(rgb24_bytes(&fb), vec![1, 2, 3, 0xFF, 0xFE, 0xFD]);
    assert_eq!(rgba32_bytes(&fb), vec![1, 2, 3, 255, 0xFF, 0xFE, 0xFD, 255]);
}

#[test]
fn one_frame_for_ten_packets() {
    let channels = [true; 16];
    let packets = track_packets(&disc(), 0, 6);
    let mut e = FrameExporter::new(packets.clone(), false, channels);
    assert_eq!(e.total_frames(), 2);
    for end in [10usize, 20, 24] {
        let bytes = e.next_frame().unwrap();
        let screen = replay(false, channels, &packets, end);
        assert_eq!(bytes, rgb24_bytes(&framebuffer(&screen)));
    }
    assert!(e.next_frame().is_none());
    assert!(e.next_frame().is_none());
    assert_eq!(e.frame, 3);
}

#[test]
fn empty_track_has_no_frames() {
    let mut e = FrameExporter::new(vec![], true, [false; 16]);
    assert_eq!(e.total_frames(), 1);
    assert!(e.next_frame().is_none());
}

#[test]
fn stems_are_fit_for_file_names() {
    assert_eq!(sanitize_output_stem("AC/DC: Live?"), "AC_DC_ Live_");
    assert_eq!(sanitize_output_stem("a<b>c\"d\\e|f*"), "a_b_c_d_e_f_");
    assert_eq!(sanitize_output_stem("  x. . "), "x");
    assert_eq!(sanitize_output_stem("tab\there\u{7f}"), "tab_here_");
    assert_eq!(sanitize_output_stem("\u{3000}Ä\u{2003}"), "Ä");
    assert_eq!(sanitize_output_stem(" ... "), "Track");
    assert_eq!(sanitize_output_stem(""), "Track");
    assert_eq!(sanitize_output_stem("a.\u{a0}"), "a.");
}

#[test]
fn names_of_exported_files() {
    assert_eq!(track_file_stem(3), "Track 03");
    assert_eq!(track_file_stem(12), "Track 12");
    assert_eq!(track_file_stem(0), "Track 00");
    assert_eq!(track_file_stem(120), "Track 120");
    assert_eq!(sanitize_output_stem("Track 03"), "Track 03");
}

#[test]
fn plan_of_a_track() {
    let mut d = disc();
    let plan = plan_track(&d, 0, 6, true, 1);
    assert_eq!(plan.packets.len(), 24);
    assert!(!plan.cdeg_on);
    assert_eq!(plan.file_stem, "Track 01");
    d.extend(raw(0x0A, 3, &[]));
    let plan = plan_track(&d, 0, 7, true, 1);
    assert!(plan.cdeg_on);
    assert_eq!(plan.file_stem, "Track 01");
    let plan = plan_track(&d, 0, 7, false, 14);
    assert!(!plan.cdeg_on);
    assert_eq!(plan.file_stem, "Track 14");
}

#[test]
fn last_frame_shows_the_whole_track() {
    let packets = track_packets(&disc(), 0, 6);
    let mut e = FrameExporter::new(packets.clone(), false, [true; 16]);
    let mut last = None;
    while let Some(bytes) = e.next_frame() {
        last = Some(bytes);
    }
    let screen = replay(false, [true; 16], &packets, 24);
    assert_eq!(last, Some(rgb24_bytes(&framebuffer(&screen))));
}

#[test]
fn states_of_an_export() {
    let text = |s: &ExportState| s.status_text("42");
    let state = ExportState::after(3, ExportEvent::TrackStarted { track_idx: 1 });
    assert!(matches!(
        state,
        ExportState::Running { track_idx: 1, total: 3, frame: 0, total_frames: 1 }
    ));
    assert_eq!(text(&state), Some("Track 2/3 - 42%".to_string()));
    let written = ExportEvent::FrameWritten { track_idx: 1, frame: 5, total_frames: 9 };
    let state = ExportState::after(3, written);
    assert!(matches!(
        state,
        ExportState::Running { track_idx: 1, total: 3, frame: 5, total_frames: 9 }
    ));
    let state = ExportState::after(3, ExportEvent::ReadFailed("gone".to_string()));
    assert_eq!(text(&state), Some("Cannot read CDG: gone".to_string()));
    let failed = ExportEvent::TrackFailed { number: 4, reason: "bad".to_string() };
    assert_eq!(text(&ExportState::after(3, failed)), Some("Track 04: bad".to_string()));
    assert_eq!(text(&ExportState::after(3, ExportEvent::Cancelled)), None);
    let done = ExportState::after(3, ExportEvent::Finished);
    assert_eq!(text(&done), Some("Export done.".to_string()));
}

#[test]
fn steps_of_an_export() {
    assert_eq!(next_step(0, 2, false), ExportStep::Export(0));
    assert_eq!(next_step(1, 2, true), ExportStep::Cancel);
    assert_eq!(next_step(2, 2, true), ExportStep::Cancel);
    assert_eq!(next_step(2, 2, false), ExportStep::Finish);
    assert_eq!(next_step(0, 0, true), ExportStep::Finish);
}

#[test]
fn failed_track_ends_the_export() {
    assert_eq!(step_after_track(0, 3, false, false), Some(ExportStep::Export(1)));
    assert_eq!(step_after_track(2, 3, false, false), Some(ExportStep::Finish));
    assert_eq!(step_after_track(0, 3, false, true), Some(ExportStep::Cancel));
    assert_eq!(step_after_track(0, 3, true, false), None);
    assert_eq!(step_after_track(0, 3, true, true), None);
    // The second of three tracks fails.
    let mut tried = vec![];
    let mut step = Some(next_step(0, 3, false));
    while let Some(ExportStep::Export(idx)) = step {
        tried.push(idx);
        step = step_after_track(idx, 3, idx == 1, false);
    }
    assert_eq!((tried, step), (vec![0, 1], None));
}

#[test]
fn cancelled_run_ends_with_its_frame() {
    assert_eq!(after_frame(true, false), FrameStep::Next);
    assert_eq!(after_frame(true, true), FrameStep::Cancelled);
    assert_eq!(after_frame(false, false), FrameStep::WriteFailed);
    assert_eq!(after_frame(false, true), FrameStep::WriteFailed);
    let mut e = FrameExporter::new(track_packets(&disc(), 0, 6), false, [true; 16]);
    let mut piped = 0;
    while e.next_frame().is_some() {
        piped += 1;
        if after_frame(true, true) != FrameStep::Next {
            break;
        }
    }
    assert_eq!(piped, 1);
}
