use cdg_player::ffmpeg::Os;
use cdg_player::fonts::{fallback_keys, font_candidates};

#[test]
fn fonts_of_each_system() {
    let mac = font_candidates(Os::MacOs);
    assert_eq!(mac.len(), 13);
    assert_eq!(mac[0], ("latin_ext", "/System/Library/Fonts/Helvetica.ttc"));
    assert_eq!(mac[12], ("sinhala", "/System/Library/Fonts/Supplemental/Sinhala MN.ttc"));
    let windows = font_candidates(Os::Windows);
    assert_eq!(windows.len(), 15);
    assert_eq!(windows[1], ("cjk", "C:\\Windows\\Fonts\\msgothic.ttc"));
    let other = font_candidates(Os::Other);
    assert_eq!(other.len(), 22);
    assert_eq!(
        other[3],
        ("cjk2", "/usr/share/fonts/opentype/noto/NotoSansCJK-Regular.ttc")
    );
}

#[test]
fn missing_fonts_are_passed_over() {
    let mut found = vec![false; 15];
    assert!(fallback_keys(Os::Windows, &found).is_empty());
    found[0] = true;
    found[3] = true;
    found[14] = true;
    assert_eq!(fallback_keys(Os::Windows, &found), vec!["latin_ext", "thai", "khmer"]);
}
