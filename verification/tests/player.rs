use cdg_player::cdg::PacketIter;
use cdg_player::playback::{
    default_channels, following_track, has_cdeg, preceding_track, replay, track_packets, track_position,
    track_slice,
};
use cdg_player::player::{clock_text, time_text, track_label, PlayState, Player, SeekAudio};
use cdg_player::renderer::{CdegScreen, PIXEL_COUNT};
use cdg_player::session::{library_hint, Next, Panel, Session};

fn raw(command: u8, instruction: u8, data: &[u8]) -> Vec<u8> {
    let mut packet = vec![0u8; 24];
    packet[0] = command;
    packet[1] = instruction;
    packet[4..4 + data.len()].copy_from_slice(data);
    packet
}

// Eight packets, which is two sectors.
fn disc() -> Vec<u8> {
    let mut d = raw(9, 30, &[0, 0, 0x3F, 0x3F, 0x3C, 0, 0, 0x0F]);
    d.extend(raw(9, 1, &[1]));
    d.extend(raw(9, 6, &[2, 3, 5, 5, 0x3F, 0x3F]));
    d.extend(raw(9, 6, &[0x10, 3, 6, 6, 0x3F]));
    d.extend(raw(0x0A, 3, &[0b0011]));
    d.extend(raw(0x0A, 16, &[0, 0, 0x3F, 0x3F]));
    d.extend(raw(9, 2, &[2]));
    d.extend(raw(9, 38, &[1, 2, 7, 7, 0x2A]));
    d
}

fn channels(list: &[usize]) -> [bool; 16] {
    let mut c = [false; 16];
    for &i in list {
        c[i] = true;
    }
    c
}

fn frame(screen: &CdegScreen) -> Vec<u32> {
    let mut out = vec![0u32; PIXEL_COUNT];
    screen.render(&mut out);
    out
}

fn player() -> Player {
    Player::new(&disc(), 0, 2, true, channels(&[0, 1]), 1000)
}

const SECOND: u64 = 1_000_000_000;

#[test]
fn track_bytes_are_cut_out() {
    let bytes: Vec<u8> = (0..200).map(|i| i as u8).collect();
    assert_eq!(track_slice(&bytes, 0, 1), &bytes[0..96]);
    assert_eq!(track_slice(&bytes, 96, 1), &bytes[96..192]);
    assert_eq!(track_slice(&bytes, 192, 1), &bytes[192..200]);
    assert_eq!(track_slice(&bytes, 500, 1), &bytes[200..200]);
    assert_eq!(track_packets(&disc(), 96, 1).len(), 4);
    assert_eq!(track_packets(&disc(), 96, 1)[0].0, 0);
}

#[test]
fn cdeg_is_detected() {
    let d = disc();
    assert!(has_cdeg(&PacketIter::new(&d).collect()));
    assert!(!has_cdeg(&PacketIter::new(&d[..96]).collect()));
}

#[test]
fn channels_enabled_at_first() {
    assert_eq!(default_channels(&channels(&[0, 1, 5])), channels(&[0, 1]));
    assert_eq!(default_channels(&channels(&[1])), channels(&[0]));
    assert_eq!(default_channels(&channels(&[])), channels(&[0]));
}

#[test]
fn tracks_in_order() {
    assert_eq!(track_position(&vec![1, 4, 9], 4), 1);
    assert_eq!(track_position(&vec![1, 4, 9], 5), 0);
    assert_eq!(following_track(0, 2), Some(1));
    assert_eq!(following_track(1, 2), None);
    assert_eq!(following_track(0, 0), None);
    assert_eq!(preceding_track(2), Some(1));
    assert_eq!(preceding_track(0), None);
}

#[test]
fn new_player() {
    let p = player();
    assert_eq!(p.total_packets, 8);
    assert_eq!(p.packet_idx, 0);
    assert_eq!(p.state, PlayState::Playing);
    assert!(p.is_cdeg && p.screen.cdeg_enabled);
    assert_eq!(p.channels_present, channels(&[0, 4]));
    let off = Player::new(&disc(), 0, 2, false, channels(&[0]), 0);
    assert!(off.is_cdeg && !off.screen.cdeg_enabled);
    // What the disc has counts, not what the track has.
    let first = Player::new(&disc(), 0, 1, true, channels(&[0]), 0);
    assert!(first.is_cdeg && first.screen.cdeg_enabled);
    assert_eq!(first.channels_present, channels(&[0, 4]));
    let plain = Player::new(&disc()[..96], 0, 1, true, channels(&[0]), 0);
    assert!(!plain.is_cdeg && !plain.screen.cdeg_enabled);
}

#[test]
fn seeking_shows_what_playing_shows() {
    for n in 0..=8 {
        let mut a = player();
        a.tick(n, 0);
        let mut b = player();
        b.tick(8, 0);
        b.seek_to(n, SECOND, 10, 0, 0);
        assert_eq!(a.packet_idx, b.packet_idx);
        assert_eq!(frame(&a.screen), frame(&b.screen));
        let c = replay(true, channels(&[0, 1]), &a.packets, n);
        assert_eq!(frame(&a.screen), frame(&c));
    }
}

#[test]
fn ticking_draws_what_is_due() {
    let mut p = player();
    assert!(!p.tick(3, 5000));
    assert_eq!(p.packet_idx, 3);
    assert!(!p.tick(2, 5000));
    assert_eq!(p.packet_idx, 3);
    assert!(p.tick(100, 5000));
    assert_eq!(p.packet_idx, 8);
    assert_eq!(p.state, PlayState::Stopped);
    assert_eq!(p.paused_at, Some(6000));
    assert!(!p.tick(100, 5000));
    assert_eq!(p.elapsed(999_999, 5000), 5000);
}

#[test]
fn pausing_stops_the_clock() {
    let mut p = player();
    p.tick(2, SECOND);
    assert_eq!(p.elapsed(1500, SECOND), 500);
    assert_eq!(p.elapsed(900, SECOND), 0);
    assert!(p.pause(1500));
    assert!(!p.pause(1600));
    assert_eq!(p.elapsed(9000, SECOND), 500);
    assert!(!p.tick(8, SECOND));
    assert_eq!(p.packet_idx, 2);
    assert_eq!(p.play(9000, 10), None);
    assert_eq!(p.elapsed(9000, SECOND), 500);
    assert_eq!(p.elapsed(9100, SECOND), 600);
    assert_eq!(p.elapsed(9100, 550), 550);
}

#[test]
fn seeking_moves_the_clock_and_the_audio() {
    let mut p = player();
    let audio = p.seek_to(4, 10_000, 300, 8, 20);
    assert_eq!(audio, SeekAudio { queue_from: Some(8), hold: false });
    assert_eq!(p.elapsed(10_000, SECOND), 300);
    p.pause(10_100);
    let audio = p.seek_to(99, 20_000, 400, 20, 20);
    assert_eq!(audio, SeekAudio { queue_from: None, hold: false });
    assert_eq!(p.packet_idx, 8);
    assert_eq!(p.state, PlayState::Paused);
    let audio = p.seek_to(1, 20_000, 400, 19, 20);
    assert_eq!(audio, SeekAudio { queue_from: Some(19), hold: true });
}

#[test]
fn stopping_and_starting_over() {
    let mut p = player();
    p.tick(5, SECOND);
    p.stop(2000);
    assert_eq!((p.packet_idx, p.state), (0, PlayState::Stopped));
    assert_eq!(frame(&p.screen), vec![0u32; PIXEL_COUNT]);
    assert_eq!(p.elapsed(9000, SECOND), 0);
    assert_eq!(p.play(3000, 5), Some(SeekAudio { queue_from: Some(0), hold: false }));
    assert_eq!((p.epoch, p.state), (3000, PlayState::Playing));
    p.stop(4000);
    assert_eq!(p.play(5000, 0), Some(SeekAudio { queue_from: None, hold: false }));
}

#[test]
fn settings_back_and_forth() {
    let mut p = player();
    p.tick(7, SECOND);
    let before = frame(&p.screen);
    p.set_cdeg_enabled(false);
    assert_ne!(frame(&p.screen), before);
    p.set_cdeg_enabled(true);
    assert_eq!(frame(&p.screen), before);
    p.set_cdeg_enabled(false);
    let plain = frame(&p.screen);
    assert!(p.toggle_channel(4));
    assert_ne!(frame(&p.screen), plain);
    assert!(!p.toggle_channel(4));
    assert_eq!(frame(&p.screen), plain);
    assert_eq!(p.packet_idx, 7);
}

#[test]
fn audio_alone() {
    let mut p = Player::audio_only(600, true, channels(&[0]), 5);
    assert!(!p.is_cdeg && p.screen.cdeg_enabled);
    assert_eq!(p.channels_present, [false; 16]);
    assert!(!p.tick(600, SECOND));
    assert_eq!(p.packet_idx, 0);
    assert_eq!(p.seek_to(0, 100, 0, 0, 1), SeekAudio { queue_from: Some(0), hold: false });
}

#[test]
fn labels() {
    assert_eq!(clock_text(0), "00:00");
    assert_eq!(clock_text(754), "12:34");
    assert_eq!(clock_text(6001), "100:01");
    assert_eq!(time_text(5, 65), "00:05 / 01:05");
    assert_eq!(track_label(3), "Track 03");
    assert_eq!(track_label(120), "Track 120");
}

#[test]
fn session_plays_through_a_disc() {
    let mut s = Session::new();
    assert!(s.cdeg_enabled && s.player.is_none() && !s.can_export());
    assert_eq!(s.active_channels, channels(&[0, 1]));
    assert_eq!(s.album_channels(), channels(&[0]));
    s.open_disc(vec![1, 2], true, &disc(), 0, 2);
    assert_eq!(s.active_channels, channels(&[0]));
    assert!(s.can_export() && s.player.is_none());
    assert_eq!(s.tick(5, SECOND), Next::Stay);
    s.load_track(0, &disc(), 0, 1, 0, 0);
    assert_eq!(s.player.as_ref().unwrap().total_packets, 4);
    assert_eq!(s.tick(3, SECOND), Next::Stay);
    assert_eq!(s.tick(4, SECOND), Next::Load(1));
    s.load_track(1, &disc(), 96, 1, 0, 0);
    assert_eq!(s.track_idx, 1);
    s.load_track(2, &disc(), 0, 1, 0, 0);
    assert_eq!(s.track_idx, 1);
    assert_eq!(s.tick(4, SECOND), Next::Library);
    s.return_to_library();
    assert!(s.player.is_none() && s.numbers.is_empty() && !s.has_graphics);
}

#[test]
fn session_remembers_the_settings() {
    let mut s = Session::new();
    s.open_disc(vec![1], true, &disc(), 0, 2);
    s.load_track(0, &disc(), 0, 2, 0, 0);
    s.toggle_channel(4);
    assert_eq!(s.active_channels, channels(&[0, 4]));
    s.toggle_channel(5);
    assert_eq!(s.active_channels, channels(&[0, 4]));
    assert!(s.export_cdeg());
    s.toggle_cdeg();
    assert!(!s.cdeg_enabled && !s.export_cdeg());
    s.load_track(0, &disc(), 0, 2, 0, 0);
    let p = s.player.as_ref().unwrap();
    assert_eq!(p.screen.active_channels, channels(&[0, 4]));
    assert!(!p.screen.cdeg_enabled);
    assert_eq!(s.album_channels(), channels(&[0]));
    // A disc without CD+EG packets has nothing to switch.
    s.load_track(0, &disc()[..96], 0, 1, 0, 0);
    s.toggle_cdeg();
    assert!(!s.cdeg_enabled);
}

#[test]
fn session_without_graphics() {
    let mut s = Session::new();
    s.open_disc(vec![1], false, &disc(), 0, 2);
    assert_eq!(s.active_channels, channels(&[0]));
    s.load_track(0, &[], 0, 0, 900, 7);
    assert_eq!(s.player.as_ref().unwrap().total_packets, 900);
    assert!(!s.can_export());
    assert_eq!(s.panel(true, 1), Panel::AudioOnly);
}

#[test]
fn panels() {
    let mut s = Session::new();
    assert_eq!(s.panel(false, 3), Panel::NoLibrary);
    assert_eq!(s.panel(true, 0), Panel::EmptyLibrary);
    assert_eq!(s.panel(true, 3), Panel::Library);
    s.open_disc(vec![1], true, &disc(), 0, 2);
    s.load_track(0, &disc(), 0, 2, 0, 0);
    assert_eq!(s.panel(true, 3), Panel::Video);
    assert_eq!(
        library_hint(0),
        "Click \"Set Library\" to navigate to your CD+G disc images, or click \"Open\" to load a file."
    );
    assert_eq!(library_hint(2), "Select a CD+G title or click \"Open\" to load a file.");
}

#[test]
fn next_open_dismisses_the_message() {
    let mut s = Session::new();
    s.open_failed("no cue".to_string());
    assert_eq!(s.panel(true, 3), Panel::OpenError);
    assert_eq!(s.open_error, Some("no cue".to_string()));
    s.begin_open();
    assert_eq!(s.panel(true, 3), Panel::Library);
    s.open_failed("bad".to_string());
    s.open_disc(vec![1], true, &disc(), 0, 2);
    assert_eq!(s.open_error, None);
}
