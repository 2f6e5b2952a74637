use cdg_player::text::{
    chars_of, contains, find_last_char, has_end, join, lines_of, number_text, number_text2,
    string_of, to_lower, to_upper, trim_range,
};

#[test]
fn numbers() {
    assert_eq!(number_text(0), "0");
    assert_eq!(number_text(907), "907");
    assert_eq!(number_text(u64::MAX), "18446744073709551615");
    assert_eq!(number_text2(7), "07");
    assert_eq!(number_text2(42), "42");
    assert_eq!(number_text2(100), "100");
}

#[test]
fn lines_like_the_standard_library() {
    for text in ["", "a", "a\n", "a\r\nb", "\n\nx\r", "a\r\r\n", "é\n\r\n"] {
        let expected: Vec<String> = text.lines().map(|l| l.to_string()).collect();
        assert_eq!(lines_of(text), expected);
    }
}

#[test]
fn trimming_like_the_standard_library() {
    for text in ["", "  ", " a ", "\u{3000}x y\u{a0}\t", "\u{200b}z", "\u{85}\u{2028}q"] {
        let chars = chars_of(text);
        let (a, b) = trim_range(&chars, 0, chars.len());
        assert_eq!(string_of(&chars, a, b), text.trim());
    }
}

#[test]
fn white_space_is_the_unicode_property() {
    for u in 0..0x110000u32 {
        if let Some(c) = char::from_u32(u) {
            let listed = matches!(u, 0x09..=0x0D | 0x20 | 0x85 | 0xA0 | 0x1680
                | 0x2000..=0x200A | 0x2028 | 0x2029 | 0x202F | 0x205F | 0x3000);
            assert_eq!(c.is_whitespace(), listed);
            assert_eq!(c.is_control(), u <= 0x1F || (0x7F <= u && u <= 0x9F));
        }
    }
}

#[test]
fn case_and_searching() {
    let upper: String = to_upper(&chars_of("aZ-é"), 0, 4).into_iter().collect();
    assert_eq!(upper, "AZ-é");
    let lower: String = to_lower("AzÉ").into_iter().collect();
    assert_eq!(lower, "azÉ");
    assert!(contains(&chars_of("xaab"), &chars_of("aab")));
    assert!(!contains(&chars_of("xaab"), &chars_of("abb")));
    assert!(contains(&chars_of(""), &chars_of("")));
    assert!(has_end(&chars_of("a.cue"), ".cue"));
    assert!(!has_end(&chars_of("cue"), ".cue"));
    assert_eq!(find_last_char(&chars_of("a.b.c"), '.'), Some(3));
    assert_eq!(find_last_char(&chars_of("abc"), '.'), None);
}

#[test]
fn joining() {
    assert_eq!(join(&vec![], ", "), "");
    assert_eq!(join(&vec!["a".to_string(), "".to_string(), "b".to_string()], ", "), "a, , b");
}
