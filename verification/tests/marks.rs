use cdg_player::marks::{composes, composes_in, mark_class, MarkClass};
use cdg_player::text::chars_of;

#[test]
fn classes_of_marks() {
    assert_eq!(mark_class('\u{301}'), MarkClass::Above);
    assert_eq!(mark_class('\u{323}'), MarkClass::Below);
    assert_eq!(mark_class('\u{327}'), MarkClass::AttachedBelow);
    assert_eq!(mark_class('\u{31B}'), MarkClass::AttachedAbove);
    assert_eq!(mark_class('\u{338}'), MarkClass::Overlay);
    assert_eq!(mark_class('\u{5B0}'), MarkClass::Other);
    assert_eq!(mark_class('\u{F81}'), MarkClass::Other);
    for c in ['a', '.', '\u{E9}', '\u{FE0F}', '\u{20E3}', '\u{34F}', '\u{3042}', '\u{10FFFF}'] {
        assert_eq!(mark_class(c), MarkClass::Starter);
    }
}

#[test]
fn number_of_marks() {
    let of = |class: MarkClass| {
        (0..0x110000u32)
            .filter_map(char::from_u32)
            .filter(|c| mark_class(*c) == class)
            .count()
    };
    assert_eq!(of(MarkClass::Above), 508);
    assert_eq!(of(MarkClass::Below), 177);
    assert_eq!(of(MarkClass::Overlay), 32);
    assert_eq!(of(MarkClass::AttachedBelow), 5);
    assert_eq!(of(MarkClass::AttachedAbove), 9);
    assert_eq!(of(MarkClass::Other), 184);
}

#[test]
fn pairs_that_compose() {
    assert!(composes('e', '\u{301}') && composes('C', '\u{327}') && composes('o', '\u{31B}'));
    assert!(composes('=', '\u{338}') && composes('<', '\u{338}') && composes('>', '\u{338}'));
    assert!(!composes('x', '\u{301}') && !composes('.', '\u{307}') && !composes('a', 'b'));
    let mut count = 0;
    for b in 0..128u8 {
        for m in (0x300..0x370u32).filter_map(char::from_u32) {
            if composes(b as char, m) {
                count += 1;
            }
        }
    }
    assert_eq!(count, 446);
}

#[test]
fn marks_behind_a_letter() {
    let behind = |s: &str| {
        let chars = chars_of(s);
        composes_in(&chars, 0, chars.len())
    };
    assert!(behind("e\u{301}") && behind("e\u{316}\u{301}") && behind("e\u{301}z"));
    assert!(!behind("e") && !behind("x\u{301}") && !behind("ez\u{301}"));
    // A mark of the same class stands between.
    assert!(!behind("e\u{313}\u{301}"));
    // So does a character that is no mark.
    assert!(!behind("e\u{34F}\u{301}"));
}
