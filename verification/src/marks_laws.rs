//! What holds of the composed letters: upper and lower case go together, and no accented
//! letter of the usual blocks is left out.

use crate::marks::{
    class_of, composed, composes_at, composes_behind, with_acute, with_breve, with_breve_below,
    with_caron, with_cedilla, with_circumflex, with_circumflex_below, with_comma_below,
    with_diaeresis, with_diaeresis_below, with_dot_above, with_dot_below, with_double_acute,
    with_double_grave, with_grave, with_hook_above, with_horn, with_inverted_breve, with_macron,
    with_macron_below, with_ogonek, with_ring_above, with_ring_below, with_solidus, with_tilde,
    with_tilde_below, MarkClass,
};
use vstd::prelude::*;

verus! {

// ── Classes ─────────────────────────────────────────────────────────────────

/// The marks of the block Combining Diacritical Marks that stand below.
pub open spec fn diacritic_below(u: u32) -> bool {
    ||| 0x316 <= u <= 0x319
    ||| 0x31C <= u <= 0x320
    ||| 0x323 <= u <= 0x326
    ||| 0x329 <= u <= 0x333
    ||| 0x339 <= u <= 0x33C
    ||| 0x347 <= u <= 0x349
    ||| 0x34D <= u <= 0x34E
    ||| 0x353 <= u <= 0x356
    ||| 0x359 <= u <= 0x35A
}

/// The marks of that block that are of another class than those which compose.
pub open spec fn diacritic_aside(u: u32) -> bool {
    ||| u == 0x315
    ||| u == 0x31A
    ||| u == 0x345
    ||| u == 0x358
    ||| 0x35C <= u <= 0x362
}

/// In the block Combining Diacritical Marks every character but the grapheme joiner is
/// a mark: a few overlaid or attached, some below, a few aside, and all others above.
pub proof fn lemma_diacritics(c: char)
    requires
        0x300 <= c as u32 <= 0x36F,
    ensures
        class_of(c) == {
            let u = c as u32;
            if u == 0x34F {
                MarkClass::Starter
            } else if 0x334 <= u <= 0x338 {
                MarkClass::Overlay
            } else if 0x321 <= u <= 0x322 || 0x327 <= u <= 0x328 {
                MarkClass::AttachedBelow
            } else if u == 0x31B {
                MarkClass::AttachedAbove
            } else if diacritic_below(u) {
                MarkClass::Below
            } else if diacritic_aside(u) {
                MarkClass::Other
            } else {
                MarkClass::Above
            }
        },
{
}

// ── Case ────────────────────────────────────────────────────────────────────

/// Whether two composed forms, if there are any, are the two cases of one letter. The
/// upper case stands 32 places before the lower or just before it, but for that of the
/// y with diaeresis. Five letters have a composed form in lower case only, and the I
/// with a dot above in upper case only.
pub open spec fn in_both_cases(small: Option<char>, capital: Option<char>) -> bool {
    match (small, capital) {
        (None, None) => true,
        (Some(s), Some(c)) => s as u32 == c as u32 + 32 || s as u32 == c as u32 + 1 || (s as u32
            == 0xFF && c as u32 == 0x178),
        (Some(s), None) => 0x1E96 <= s as u32 <= 0x1E99 || s as u32 == 0x1F0,
        (None, Some(c)) => c as u32 == 0x130,
    }
}

/// A mark composes with the lower case of an ASCII letter exactly if it composes with
/// the upper case, and the two forms are the two cases of one letter.
pub proof fn lemma_both_cases(small: char, capital: char, mark: char)
    requires
        'a' <= small <= 'z',
        capital as u32 + 32 == small as u32,
    ensures
        in_both_cases(composed(small, mark), composed(capital, mark)),
{
    lemma_cases_of_grave(small, capital);
    lemma_cases_of_acute(small, capital);
    lemma_cases_of_circumflex(small, capital);
    lemma_cases_of_tilde(small, capital);
    lemma_cases_of_macron(small, capital);
    lemma_cases_of_breve(small, capital);
    lemma_cases_of_dot_above(small, capital);
    lemma_cases_of_diaeresis(small, capital);
    lemma_cases_of_hook_above(small, capital);
    lemma_cases_of_ring_above(small, capital);
    lemma_cases_of_double_acute(small, capital);
    lemma_cases_of_caron(small, capital);
    lemma_cases_of_double_grave(small, capital);
    lemma_cases_of_inverted_breve(small, capital);
    lemma_cases_of_horn(small, capital);
    lemma_cases_of_dot_below(small, capital);
    lemma_cases_of_diaeresis_below(small, capital);
    lemma_cases_of_ring_below(small, capital);
    lemma_cases_of_comma_below(small, capital);
    lemma_cases_of_cedilla(small, capital);
    lemma_cases_of_ogonek(small, capital);
    lemma_cases_of_circumflex_below(small, capital);
    lemma_cases_of_breve_below(small, capital);
    lemma_cases_of_tilde_below(small, capital);
    lemma_cases_of_macron_below(small, capital);
    lemma_cases_of_solidus(small, capital);
}

proof fn lemma_cases_of_grave(small: char, capital: char)
    requires
        'a' <= small <= 'z',
        capital as u32 + 32 == small as u32,
    ensures
        in_both_cases(with_grave(small), with_grave(capital)),
{
}

proof fn lemma_cases_of_acute(small: char, capital: char)
    requires
        'a' <= small <= 'z',
        capital as u32 + 32 == small as u32,
    ensures
        in_both_cases(with_acute(small), with_acute(capital)),
{
}

proof fn lemma_cases_of_circumflex(small: char, capital: char)
    requires
        'a' <= small <= 'z',
        capital as u32 + 32 == small as u32,
    ensures
        in_both_cases(with_circumflex(small), with_circumflex(capital)),
{
}

proof fn lemma_cases_of_tilde(small: char, capital: char)
    requires
        'a' <= small <= 'z',
        capital as u32 + 32 == small as u32,
    ensures
        in_both_cases(with_tilde(small), with_tilde(capital)),
{
}

proof fn lemma_cases_of_macron(small: char, capital: char)
    requires
        'a' <= small <= 'z',
        capital as u32 + 32 == small as u32,
    ensures
        in_both_cases(with_macron(small), with_macron(capital)),
{
}

proof fn lemma_cases_of_breve(small: char, capital: char)
    requires
        'a' <= small <= 'z',
        capital as u32 + 32 == small as u32,
    ensures
        in_both_cases(with_breve(small), with_breve(capital)),
{
}

proof fn lemma_cases_of_dot_above(small: char, capital: char)
    requires
        'a' <= small <= 'z',
        capital as u32 + 32 == small as u32,
    ensures
        in_both_cases(with_dot_above(small), with_dot_above(capital)),
{
}

proof fn lemma_cases_of_diaeresis(small: char, capital: char)
    requires
        'a' <= small <= 'z',
        capital as u32 + 32 == small as u32,
    ensures
        in_both_cases(with_diaeresis(small), with_diaeresis(capital)),
{
}

proof fn lemma_cases_of_hook_above(small: char, capital: char)
    requires
        'a' <= small <= 'z',
        capital as u32 + 32 == small as u32,
    ensures
        in_both_cases(with_hook_above(small), with_hook_above(capital)),
{
}

proof fn lemma_cases_of_ring_above(small: char, capital: char)
    requires
        'a' <= small <= 'z',
        capital as u32 + 32 == small as u32,
    ensures
        in_both_cases(with_ring_above(small), with_ring_above(capital)),
{
}

proof fn lemma_cases_of_double_acute(small: char, capital: char)
    requires
        'a' <= small <= 'z',
        capital as u32 + 32 == small as u32,
    ensures
        in_both_cases(with_double_acute(small), with_double_acute(capital)),
{
}

proof fn lemma_cases_of_caron(small: char, capital: char)
    requires
        'a' <= small <= 'z',
        capital as u32 + 32 == small as u32,
    ensures
        in_both_cases(with_caron(small), with_caron(capital)),
{
}

proof fn lemma_cases_of_double_grave(small: char, capital: char)
    requires
        'a' <= small <= 'z',
        capital as u32 + 32 == small as u32,
    ensures
        in_both_cases(with_double_grave(small), with_double_grave(capital)),
{
}

proof fn lemma_cases_of_inverted_breve(small: char, capital: char)
    requires
        'a' <= small <= 'z',
        capital as u32 + 32 == small as u32,
    ensures
        in_both_cases(with_inverted_breve(small), with_inverted_breve(capital)),
{
}

proof fn lemma_cases_of_horn(small: char, capital: char)
    requires
        'a' <= small <= 'z',
        capital as u32 + 32 == small as u32,
    ensures
        in_both_cases(with_horn(small), with_horn(capital)),
{
}

proof fn lemma_cases_of_dot_below(small: char, capital: char)
    requires
        'a' <= small <= 'z',
        capital as u32 + 32 == small as u32,
    ensures
        in_both_cases(with_dot_below(small), with_dot_below(capital)),
{
}

proof fn lemma_cases_of_diaeresis_below(small: char, capital: char)
    requires
        'a' <= small <= 'z',
        capital as u32 + 32 == small as u32,
    ensures
        in_both_cases(with_diaeresis_below(small), with_diaeresis_below(capital)),
{
}

proof fn lemma_cases_of_ring_below(small: char, capital: char)
    requires
        'a' <= small <= 'z',
        capital as u32 + 32 == small as u32,
    ensures
        in_both_cases(with_ring_below(small), with_ring_below(capital)),
{
}

proof fn lemma_cases_of_comma_below(small: char, capital: char)
    requires
        'a' <= small <= 'z',
        capital as u32 + 32 == small as u32,
    ensures
        in_both_cases(with_comma_below(small), with_comma_below(capital)),
{
}

proof fn lemma_cases_of_cedilla(small: char, capital: char)
    requires
        'a' <= small <= 'z',
        capital as u32 + 32 == small as u32,
    ensures
        in_both_cases(with_cedilla(small), with_cedilla(capital)),
{
}

proof fn lemma_cases_of_ogonek(small: char, capital: char)
    requires
        'a' <= small <= 'z',
        capital as u32 + 32 == small as u32,
    ensures
        in_both_cases(with_ogonek(small), with_ogonek(capital)),
{
}

proof fn lemma_cases_of_circumflex_below(small: char, capital: char)
    requires
        'a' <= small <= 'z',
        capital as u32 + 32 == small as u32,
    ensures
        in_both_cases(with_circumflex_below(small), with_circumflex_below(capital)),
{
}

proof fn lemma_cases_of_breve_below(small: char, capital: char)
    requires
        'a' <= small <= 'z',
        capital as u32 + 32 == small as u32,
    ensures
        in_both_cases(with_breve_below(small), with_breve_below(capital)),
{
}

proof fn lemma_cases_of_tilde_below(small: char, capital: char)
    requires
        'a' <= small <= 'z',
        capital as u32 + 32 == small as u32,
    ensures
        in_both_cases(with_tilde_below(small), with_tilde_below(capital)),
{
}

proof fn lemma_cases_of_macron_below(small: char, capital: char)
    requires
        'a' <= small <= 'z',
        capital as u32 + 32 == small as u32,
    ensures
        in_both_cases(with_macron_below(small), with_macron_below(capital)),
{
}

proof fn lemma_cases_of_solidus(small: char, capital: char)
    requires
        'a' <= small <= 'z',
        capital as u32 + 32 == small as u32,
    ensures
        in_both_cases(with_solidus(small), with_solidus(capital)),
{
}

// ── Completeness ────────────────────────────────────────────────────────────

/// The characters of the blocks Latin-1 Supplement (its letters) and Latin Extended-A
/// that are no letter with an accent: ligatures, letters with a stroke, and the like.
pub open spec fn undivided(u: u32) -> bool {
    ||| u == 0xC6
    ||| u == 0xD0
    ||| 0xD7 <= u <= 0xD8
    ||| 0xDE <= u <= 0xDF
    ||| u == 0xE6
    ||| u == 0xF0
    ||| 0xF7 <= u <= 0xF8
    ||| u == 0xFE
    ||| 0x110 <= u <= 0x111
    ||| 0x126 <= u <= 0x127
    ||| 0x131 <= u <= 0x133
    ||| u == 0x138
    ||| 0x13F <= u <= 0x142
    ||| 0x149 <= u <= 0x14B
    ||| 0x152 <= u <= 0x153
    ||| 0x166 <= u <= 0x167
    ||| u == 0x17F
}

/// Whether a character is the composed form of some ASCII character and some mark.
pub open spec fn is_composed(c: char) -> bool {
    exists|base: char, mark: char| #[trigger] composed(base, mark) == Some(c)
}

/// Every accented letter of the blocks Latin-1 Supplement and Latin Extended-A is the
/// composed form of an ASCII letter and a mark.
pub proof fn lemma_accented_letters(c: char)
    requires
        0xC0 <= c as u32 <= 0x17F,
        !undivided(c as u32),
    ensures
        is_composed(c),
{
    let u = c as u32;
    if u <= 0xDF {
        lemma_accented_c0(c);
    } else if u <= 0xFF {
        lemma_accented_e0(c);
    } else if u <= 0x11F {
        lemma_accented_100(c);
    } else if u <= 0x13F {
        lemma_accented_120(c);
    } else if u <= 0x15F {
        lemma_accented_140(c);
    } else {
        lemma_accented_160(c);
    }
}

proof fn lemma_accented_c0(c: char)
    requires
        0xC0 <= c as u32 <= 0xDF,
        !undivided(c as u32),
    ensures
        is_composed(c),
{
    assert(composed('A', '\u{300}') == Some('\u{C0}'));
    assert(composed('A', '\u{301}') == Some('\u{C1}'));
    assert(composed('A', '\u{302}') == Some('\u{C2}'));
    assert(composed('A', '\u{303}') == Some('\u{C3}'));
    assert(composed('A', '\u{308}') == Some('\u{C4}'));
    assert(composed('A', '\u{30A}') == Some('\u{C5}'));
    assert(composed('C', '\u{327}') == Some('\u{C7}'));
    assert(composed('E', '\u{300}') == Some('\u{C8}'));
    assert(composed('E', '\u{301}') == Some('\u{C9}'));
    assert(composed('E', '\u{302}') == Some('\u{CA}'));
    assert(composed('E', '\u{308}') == Some('\u{CB}'));
    assert(composed('I', '\u{300}') == Some('\u{CC}'));
    assert(composed('I', '\u{301}') == Some('\u{CD}'));
    assert(composed('I', '\u{302}') == Some('\u{CE}'));
    assert(composed('I', '\u{308}') == Some('\u{CF}'));
    assert(composed('N', '\u{303}') == Some('\u{D1}'));
    assert(composed('O', '\u{300}') == Some('\u{D2}'));
    assert(composed('O', '\u{301}') == Some('\u{D3}'));
    assert(composed('O', '\u{302}') == Some('\u{D4}'));
    assert(composed('O', '\u{303}') == Some('\u{D5}'));
    assert(composed('O', '\u{308}') == Some('\u{D6}'));
    assert(composed('U', '\u{300}') == Some('\u{D9}'));
    assert(composed('U', '\u{301}') == Some('\u{DA}'));
    assert(composed('U', '\u{302}') == Some('\u{DB}'));
    assert(composed('U', '\u{308}') == Some('\u{DC}'));
    assert(composed('Y', '\u{301}') == Some('\u{DD}'));
    assert(exists|base: char, mark: char| #[trigger] composed(base, mark) == Some(c));
}

proof fn lemma_accented_e0(c: char)
    requires
        0xE0 <= c as u32 <= 0xFF,
        !undivided(c as u32),
    ensures
        is_composed(c),
{
    assert(composed('a', '\u{300}') == Some('\u{E0}'));
    assert(composed('a', '\u{301}') == Some('\u{E1}'));
    assert(composed('a', '\u{302}') == Some('\u{E2}'));
    assert(composed('a', '\u{303}') == Some('\u{E3}'));
    assert(composed('a', '\u{308}') == Some('\u{E4}'));
    assert(composed('a', '\u{30A}') == Some('\u{E5}'));
    assert(composed('c', '\u{327}') == Some('\u{E7}'));
    assert(composed('e', '\u{300}') == Some('\u{E8}'));
    assert(composed('e', '\u{301}') == Some('\u{E9}'));
    assert(composed('e', '\u{302}') == Some('\u{EA}'));
    assert(composed('e', '\u{308}') == Some('\u{EB}'));
    assert(composed('i', '\u{300}') == Some('\u{EC}'));
    assert(composed('i', '\u{301}') == Some('\u{ED}'));
    assert(composed('i', '\u{302}') == Some('\u{EE}'));
    assert(composed('i', '\u{308}') == Some('\u{EF}'));
    assert(composed('n', '\u{303}') == Some('\u{F1}'));
    assert(composed('o', '\u{300}') == Some('\u{F2}'));
    assert(composed('o', '\u{301}') == Some('\u{F3}'));
    assert(composed('o', '\u{302}') == Some('\u{F4}'));
    assert(composed('o', '\u{303}') == Some('\u{F5}'));
    assert(composed('o', '\u{308}') == Some('\u{F6}'));
    assert(composed('u', '\u{300}') == Some('\u{F9}'));
    assert(composed('u', '\u{301}') == Some('\u{FA}'));
    assert(composed('u', '\u{302}') == Some('\u{FB}'));
    assert(composed('u', '\u{308}') == Some('\u{FC}'));
    assert(composed('y', '\u{301}') == Some('\u{FD}'));
    assert(composed('y', '\u{308}') == Some('\u{FF}'));
    assert(exists|base: char, mark: char| #[trigger] composed(base, mark) == Some(c));
}

proof fn lemma_accented_100(c: char)
    requires
        0x100 <= c as u32 <= 0x11F,
        !undivided(c as u32),
    ensures
        is_composed(c),
{
    assert(composed('A', '\u{304}') == Some('\u{100}'));
    assert(composed('a', '\u{304}') == Some('\u{101}'));
    assert(composed('A', '\u{306}') == Some('\u{102}'));
    assert(composed('a', '\u{306}') == Some('\u{103}'));
    assert(composed('A', '\u{328}') == Some('\u{104}'));
    assert(composed('a', '\u{328}') == Some('\u{105}'));
    assert(composed('C', '\u{301}') == Some('\u{106}'));
    assert(composed('c', '\u{301}') == Some('\u{107}'));
    assert(composed('C', '\u{302}') == Some('\u{108}'));
    assert(composed('c', '\u{302}') == Some('\u{109}'));
    assert(composed('C', '\u{307}') == Some('\u{10A}'));
    assert(composed('c', '\u{307}') == Some('\u{10B}'));
    assert(composed('C', '\u{30C}') == Some('\u{10C}'));
    assert(composed('c', '\u{30C}') == Some('\u{10D}'));
    assert(composed('D', '\u{30C}') == Some('\u{10E}'));
    assert(composed('d', '\u{30C}') == Some('\u{10F}'));
    assert(composed('E', '\u{304}') == Some('\u{112}'));
    assert(composed('e', '\u{304}') == Some('\u{113}'));
    assert(composed('E', '\u{306}') == Some('\u{114}'));
    assert(composed('e', '\u{306}') == Some('\u{115}'));
    assert(composed('E', '\u{307}') == Some('\u{116}'));
    assert(composed('e', '\u{307}') == Some('\u{117}'));
    assert(composed('E', '\u{328}') == Some('\u{118}'));
    assert(composed('e', '\u{328}') == Some('\u{119}'));
    assert(composed('E', '\u{30C}') == Some('\u{11A}'));
    assert(composed('e', '\u{30C}') == Some('\u{11B}'));
    assert(composed('G', '\u{302}') == Some('\u{11C}'));
    assert(composed('g', '\u{302}') == Some('\u{11D}'));
    assert(composed('G', '\u{306}') == Some('\u{11E}'));
    assert(composed('g', '\u{306}') == Some('\u{11F}'));
    assert(exists|base: char, mark: char| #[trigger] composed(base, mark) == Some(c));
}

proof fn lemma_accented_120(c: char)
    requires
        0x120 <= c as u32 <= 0x13F,
        !undivided(c as u32),
    ensures
        is_composed(c),
{
    assert(composed('G', '\u{307}') == Some('\u{120}'));
    assert(composed('g', '\u{307}') == Some('\u{121}'));
    assert(composed('G', '\u{327}') == Some('\u{122}'));
    assert(composed('g', '\u{327}') == Some('\u{123}'));
    assert(composed('H', '\u{302}') == Some('\u{124}'));
    assert(composed('h', '\u{302}') == Some('\u{125}'));
    assert(composed('I', '\u{303}') == Some('\u{128}'));
    assert(composed('i', '\u{303}') == Some('\u{129}'));
    assert(composed('I', '\u{304}') == Some('\u{12A}'));
    assert(composed('i', '\u{304}') == Some('\u{12B}'));
    assert(composed('I', '\u{306}') == Some('\u{12C}'));
    assert(composed('i', '\u{306}') == Some('\u{12D}'));
    assert(composed('I', '\u{328}') == Some('\u{12E}'));
    assert(composed('i', '\u{328}') == Some('\u{12F}'));
    assert(composed('I', '\u{307}') == Some('\u{130}'));
    assert(composed('J', '\u{302}') == Some('\u{134}'));
    assert(composed('j', '\u{302}') == Some('\u{135}'));
    assert(composed('K', '\u{327}') == Some('\u{136}'));
    assert(composed('k', '\u{327}') == Some('\u{137}'));
    assert(composed('L', '\u{301}') == Some('\u{139}'));
    assert(composed('l', '\u{301}') == Some('\u{13A}'));
    assert(composed('L', '\u{327}') == Some('\u{13B}'));
    assert(composed('l', '\u{327}') == Some('\u{13C}'));
    assert(composed('L', '\u{30C}') == Some('\u{13D}'));
    assert(composed('l', '\u{30C}') == Some('\u{13E}'));
    assert(exists|base: char, mark: char| #[trigger] composed(base, mark) == Some(c));
}

proof fn lemma_accented_140(c: char)
    requires
        0x140 <= c as u32 <= 0x15F,
        !undivided(c as u32),
    ensures
        is_composed(c),
{
    assert(composed('N', '\u{301}') == Some('\u{143}'));
    assert(composed('n', '\u{301}') == Some('\u{144}'));
    assert(composed('N', '\u{327}') == Some('\u{145}'));
    assert(composed('n', '\u{327}') == Some('\u{146}'));
    assert(composed('N', '\u{30C}') == Some('\u{147}'));
    assert(composed('n', '\u{30C}') == Some('\u{148}'));
    assert(composed('O', '\u{304}') == Some('\u{14C}'));
    assert(composed('o', '\u{304}') == Some('\u{14D}'));
    assert(composed('O', '\u{306}') == Some('\u{14E}'));
    assert(composed('o', '\u{306}') == Some('\u{14F}'));
    assert(composed('O', '\u{30B}') == Some('\u{150}'));
    assert(composed('o', '\u{30B}') == Some('\u{151}'));
    assert(composed('R', '\u{301}') == Some('\u{154}'));
    assert(composed('r', '\u{301}') == Some('\u{155}'));
    assert(composed('R', '\u{327}') == Some('\u{156}'));
    assert(composed('r', '\u{327}') == Some('\u{157}'));
    assert(composed('R', '\u{30C}') == Some('\u{158}'));
    assert(composed('r', '\u{30C}') == Some('\u{159}'));
    assert(composed('S', '\u{301}') == Some('\u{15A}'));
    assert(composed('s', '\u{301}') == Some('\u{15B}'));
    assert(composed('S', '\u{302}') == Some('\u{15C}'));
    assert(composed('s', '\u{302}') == Some('\u{15D}'));
    assert(composed('S', '\u{327}') == Some('\u{15E}'));
    assert(composed('s', '\u{327}') == Some('\u{15F}'));
    assert(exists|base: char, mark: char| #[trigger] composed(base, mark) == Some(c));
}

proof fn lemma_accented_160(c: char)
    requires
        0x160 <= c as u32 <= 0x17F,
        !undivided(c as u32),
    ensures
        is_composed(c),
{
    assert(composed('S', '\u{30C}') == Some('\u{160}'));
    assert(composed('s', '\u{30C}') == Some('\u{161}'));
    assert(composed('T', '\u{327}') == Some('\u{162}'));
    assert(composed('t', '\u{327}') == Some('\u{163}'));
    assert(composed('T', '\u{30C}') == Some('\u{164}'));
    assert(composed('t', '\u{30C}') == Some('\u{165}'));
    assert(composed('U', '\u{303}') == Some('\u{168}'));
    assert(composed('u', '\u{303}') == Some('\u{169}'));
    assert(composed('U', '\u{304}') == Some('\u{16A}'));
    assert(composed('u', '\u{304}') == Some('\u{16B}'));
    assert(composed('U', '\u{306}') == Some('\u{16C}'));
    assert(composed('u', '\u{306}') == Some('\u{16D}'));
    assert(composed('U', '\u{30A}') == Some('\u{16E}'));
    assert(composed('u', '\u{30A}') == Some('\u{16F}'));
    assert(composed('U', '\u{30B}') == Some('\u{170}'));
    assert(composed('u', '\u{30B}') == Some('\u{171}'));
    assert(composed('U', '\u{328}') == Some('\u{172}'));
    assert(composed('u', '\u{328}') == Some('\u{173}'));
    assert(composed('W', '\u{302}') == Some('\u{174}'));
    assert(composed('w', '\u{302}') == Some('\u{175}'));
    assert(composed('Y', '\u{302}') == Some('\u{176}'));
    assert(composed('y', '\u{302}') == Some('\u{177}'));
    assert(composed('Y', '\u{308}') == Some('\u{178}'));
    assert(composed('Z', '\u{301}') == Some('\u{179}'));
    assert(composed('z', '\u{301}') == Some('\u{17A}'));
    assert(composed('Z', '\u{307}') == Some('\u{17B}'));
    assert(composed('z', '\u{307}') == Some('\u{17C}'));
    assert(composed('Z', '\u{30C}') == Some('\u{17D}'));
    assert(composed('z', '\u{30C}') == Some('\u{17E}'));
    assert(exists|base: char, mark: char| #[trigger] composed(base, mark) == Some(c));
}

// ── Marks behind a letter ───────────────────────────────────────────────────

/// A letter composes with the mark right behind it, if the two have a composed form,
/// and across marks of other classes with one further behind. A character that is no
/// mark is in the way, and so is a mark of the same class.
pub proof fn lemma_marks_in_reach(s: Seq<char>, i: int, j: int)
    requires
        1 <= i < s.len(),
        1 <= j,
    ensures
        composed(s[0], s[1]) is Some ==> composes_behind(s),
        composed(s[0], s[i]) is Some && (forall|k: int|
            1 <= k < i ==> class_of(#[trigger] s[k]) != MarkClass::Starter && class_of(s[k])
                != class_of(s[i])) ==> composes_behind(s),
        j < i && (class_of(s[j]) == MarkClass::Starter || class_of(s[j]) == class_of(s[i]))
            ==> !composes_at(s, i),
        composed(s[0], s[i]) is None ==> !composes_at(s, i),
{
    if composed(s[0], s[1]) is Some {
        assert(composes_at(s, 1));
    }
    if composed(s[0], s[i]) is Some && forall|k: int|
        1 <= k < i ==> class_of(#[trigger] s[k]) != MarkClass::Starter && class_of(s[k])
            != class_of(s[i]) {
        assert(composes_at(s, i));
    }
}

} // verus!
