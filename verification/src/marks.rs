//! Combining marks of Unicode, as of version 14: their combining classes, and the
//! ASCII characters that they compose with.

use vstd::prelude::*;

verus! {

// ── Classes ─────────────────────────────────────────────────────────────────

/// The canonical combining classes that are told apart. Only marks of the five
/// named ones compose with an ASCII character.
#[derive(Debug, Clone, Copy, PartialEq, Eq, Structural)]
pub enum MarkClass {
    /// Class 0: no mark that moves.
    Starter,
    /// Class 1.
    Overlay,
    /// Class 202.
    AttachedBelow,
    /// Class 216.
    AttachedAbove,
    /// Class 220.
    Below,
    /// Class 230.
    Above,
    /// Any other class. The three characters that are only another way to write two
    /// such marks (U+0F73, U+0F75, U+0F81) count as well.
    Other,
}

/// The marks laid over their base.
pub open spec fn overlay(u: u32) -> bool {
    ||| 0x334 <= u <= 0x338
    ||| u == 0x1CD4
    ||| 0x1CE2 <= u <= 0x1CE8
    ||| 0x20D2 <= u <= 0x20D3
    ||| 0x20D8 <= u <= 0x20DA
    ||| 0x20E5 <= u <= 0x20E6
    ||| 0x20EA <= u <= 0x20EB
    ||| u == 0x10A39
    ||| 0x16AF0 <= u <= 0x16AF4
    ||| u == 0x1BC9E
    ||| 0x1D167 <= u <= 0x1D169
}

fn is_overlay(u: u32) -> (r: bool)
    ensures
        r == overlay(u),
{
    0x334 <= u && u <= 0x338 || u == 0x1CD4 || 0x1CE2 <= u && u <= 0x1CE8
        || 0x20D2 <= u && u <= 0x20D3 || 0x20D8 <= u && u <= 0x20DA || 0x20E5 <= u && u <= 0x20E6
        || 0x20EA <= u && u <= 0x20EB || u == 0x10A39 || 0x16AF0 <= u && u <= 0x16AF4
        || u == 0x1BC9E || 0x1D167 <= u && u <= 0x1D169
}

/// The marks attached below their base.
pub open spec fn attached_below(u: u32) -> bool {
    ||| 0x321 <= u <= 0x322
    ||| 0x327 <= u <= 0x328
    ||| u == 0x1DD0
}

fn is_attached_below(u: u32) -> (r: bool)
    ensures
        r == attached_below(u),
{
    0x321 <= u && u <= 0x322 || 0x327 <= u && u <= 0x328 || u == 0x1DD0
}

/// The marks attached above and to the right of their base.
pub open spec fn attached_above(u: u32) -> bool {
    ||| u == 0x31B
    ||| u == 0xF39
    ||| 0x1D165 <= u <= 0x1D166
    ||| 0x1D16E <= u <= 0x1D172
}

fn is_attached_above(u: u32) -> (r: bool)
    ensures
        r == attached_above(u),
{
    u == 0x31B || u == 0xF39 || 0x1D165 <= u && u <= 0x1D166 || 0x1D16E <= u && u <= 0x1D172
}

/// The marks below their base, from U+0316 to U+0952.
pub open spec fn below_1(u: u32) -> bool {
    ||| 0x316 <= u <= 0x319
    ||| 0x31C <= u <= 0x320
    ||| 0x323 <= u <= 0x326
    ||| 0x329 <= u <= 0x333
    ||| 0x339 <= u <= 0x33C
    ||| 0x347 <= u <= 0x349
    ||| 0x34D <= u <= 0x34E
    ||| 0x353 <= u <= 0x356
    ||| 0x359 <= u <= 0x35A
    ||| u == 0x591
    ||| u == 0x596
    ||| u == 0x59B
    ||| 0x5A2 <= u <= 0x5A7
    ||| u == 0x5AA
    ||| u == 0x5C5
    ||| 0x655 <= u <= 0x656
    ||| u == 0x65C
    ||| u == 0x65F
    ||| u == 0x6E3
    ||| u == 0x6EA
    ||| u == 0x6ED
    ||| u == 0x731
    ||| u == 0x734
    ||| 0x737 <= u <= 0x739
    ||| 0x73B <= u <= 0x73C
    ||| u == 0x73E
    ||| u == 0x742
    ||| u == 0x744
    ||| u == 0x746
    ||| u == 0x748
    ||| u == 0x7F2
    ||| u == 0x7FD
    ||| 0x859 <= u <= 0x85B
    ||| 0x899 <= u <= 0x89B
    ||| 0x8CF <= u <= 0x8D3
    ||| u == 0x8E3
    ||| u == 0x8E6
    ||| u == 0x8E9
    ||| 0x8ED <= u <= 0x8EF
    ||| u == 0x8F6
    ||| 0x8F9 <= u <= 0x8FA
    ||| u == 0x952
}

fn is_below_1(u: u32) -> (r: bool)
    ensures
        r == below_1(u),
{
    0x316 <= u && u <= 0x319 || 0x31C <= u && u <= 0x320 || 0x323 <= u && u <= 0x326
        || 0x329 <= u && u <= 0x333 || 0x339 <= u && u <= 0x33C || 0x347 <= u && u <= 0x349
        || 0x34D <= u && u <= 0x34E || 0x353 <= u && u <= 0x356 || 0x359 <= u && u <= 0x35A
        || u == 0x591 || u == 0x596 || u == 0x59B || 0x5A2 <= u && u <= 0x5A7 || u == 0x5AA
        || u == 0x5C5 || 0x655 <= u && u <= 0x656 || u == 0x65C || u == 0x65F || u == 0x6E3
        || u == 0x6EA || u == 0x6ED || u == 0x731 || u == 0x734 || 0x737 <= u && u <= 0x739
        || 0x73B <= u && u <= 0x73C || u == 0x73E || u == 0x742 || u == 0x744 || u == 0x746
        || u == 0x748 || u == 0x7F2 || u == 0x7FD || 0x859 <= u && u <= 0x85B
        || 0x899 <= u && u <= 0x89B || 0x8CF <= u && u <= 0x8D3 || u == 0x8E3 || u == 0x8E6
        || u == 0x8E9 || 0x8ED <= u && u <= 0x8EF || u == 0x8F6 || 0x8F9 <= u && u <= 0x8FA
        || u == 0x952
}

/// The marks below their base, from U+0F18 to U+1E8D6.
pub open spec fn below_2(u: u32) -> bool {
    ||| 0xF18 <= u <= 0xF19
    ||| u == 0xF35
    ||| u == 0xF37
    ||| u == 0xFC6
    ||| u == 0x108D
    ||| u == 0x193B
    ||| u == 0x1A18
    ||| u == 0x1A7F
    ||| 0x1AB5 <= u <= 0x1ABA
    ||| u == 0x1ABD
    ||| 0x1ABF <= u <= 0x1AC0
    ||| 0x1AC3 <= u <= 0x1AC4
    ||| u == 0x1ACA
    ||| u == 0x1B6C
    ||| 0x1CD5 <= u <= 0x1CD9
    ||| 0x1CDC <= u <= 0x1CDF
    ||| u == 0x1CED
    ||| u == 0x1DC2
    ||| u == 0x1DCA
    ||| u == 0x1DCF
    ||| u == 0x1DF9
    ||| u == 0x1DFD
    ||| u == 0x1DFF
    ||| u == 0x20E8
    ||| 0x20EC <= u <= 0x20EF
    ||| 0xA92B <= u <= 0xA92D
    ||| u == 0xAAB4
    ||| 0xFE27 <= u <= 0xFE2D
    ||| u == 0x101FD
    ||| u == 0x102E0
    ||| u == 0x10A0D
    ||| u == 0x10A3A
    ||| u == 0x10AE6
    ||| 0x10F46 <= u <= 0x10F47
    ||| u == 0x10F4B
    ||| 0x10F4D <= u <= 0x10F50
    ||| u == 0x10F83
    ||| u == 0x10F85
    ||| 0x1D17B <= u <= 0x1D182
    ||| 0x1D18A <= u <= 0x1D18B
    ||| 0x1E8D0 <= u <= 0x1E8D6
}

fn is_below_2(u: u32) -> (r: bool)
    ensures
        r == below_2(u),
{
    0xF18 <= u && u <= 0xF19 || u == 0xF35 || u == 0xF37 || u == 0xFC6 || u == 0x108D
        || u == 0x193B || u == 0x1A18 || u == 0x1A7F || 0x1AB5 <= u && u <= 0x1ABA || u == 0x1ABD
        || 0x1ABF <= u && u <= 0x1AC0 || 0x1AC3 <= u && u <= 0x1AC4 || u == 0x1ACA || u == 0x1B6C
        || 0x1CD5 <= u && u <= 0x1CD9 || 0x1CDC <= u && u <= 0x1CDF || u == 0x1CED || u == 0x1DC2
        || u == 0x1DCA || u == 0x1DCF || u == 0x1DF9 || u == 0x1DFD || u == 0x1DFF || u == 0x20E8
        || 0x20EC <= u && u <= 0x20EF || 0xA92B <= u && u <= 0xA92D || u == 0xAAB4
        || 0xFE27 <= u && u <= 0xFE2D || u == 0x101FD || u == 0x102E0 || u == 0x10A0D
        || u == 0x10A3A || u == 0x10AE6 || 0x10F46 <= u && u <= 0x10F47 || u == 0x10F4B
        || 0x10F4D <= u && u <= 0x10F50 || u == 0x10F83 || u == 0x10F85
        || 0x1D17B <= u && u <= 0x1D182 || 0x1D18A <= u && u <= 0x1D18B
        || 0x1E8D0 <= u && u <= 0x1E8D6
}

/// The marks above their base, from U+0300 to U+089F.
pub open spec fn above_1(u: u32) -> bool {
    ||| 0x300 <= u <= 0x314
    ||| 0x33D <= u <= 0x344
    ||| u == 0x346
    ||| 0x34A <= u <= 0x34C
    ||| 0x350 <= u <= 0x352
    ||| u == 0x357
    ||| u == 0x35B
    ||| 0x363 <= u <= 0x36F
    ||| 0x483 <= u <= 0x487
    ||| 0x592 <= u <= 0x595
    ||| 0x597 <= u <= 0x599
    ||| 0x59C <= u <= 0x5A1
    ||| 0x5A8 <= u <= 0x5A9
    ||| 0x5AB <= u <= 0x5AC
    ||| u == 0x5AF
    ||| u == 0x5C4
    ||| 0x610 <= u <= 0x617
    ||| 0x653 <= u <= 0x654
    ||| 0x657 <= u <= 0x65B
    ||| 0x65D <= u <= 0x65E
    ||| 0x6D6 <= u <= 0x6DC
    ||| 0x6DF <= u <= 0x6E2
    ||| u == 0x6E4
    ||| 0x6E7 <= u <= 0x6E8
    ||| 0x6EB <= u <= 0x6EC
    ||| u == 0x730
    ||| 0x732 <= u <= 0x733
    ||| 0x735 <= u <= 0x736
    ||| u == 0x73A
    ||| u == 0x73D
    ||| 0x73F <= u <= 0x741
    ||| u == 0x743
    ||| u == 0x745
    ||| u == 0x747
    ||| 0x749 <= u <= 0x74A
    ||| 0x7EB <= u <= 0x7F1
    ||| u == 0x7F3
    ||| 0x816 <= u <= 0x819
    ||| 0x81B <= u <= 0x823
    ||| 0x825 <= u <= 0x827
    ||| 0x829 <= u <= 0x82D
    ||| u == 0x898
    ||| 0x89C <= u <= 0x89F
}

fn is_above_1(u: u32) -> (r: bool)
    ensures
        r == above_1(u),
{
    0x300 <= u && u <= 0x314 || 0x33D <= u && u <= 0x344 || u == 0x346
        || 0x34A <= u && u <= 0x34C || 0x350 <= u && u <= 0x352 || u == 0x357 || u == 0x35B
        || 0x363 <= u && u <= 0x36F || 0x483 <= u && u <= 0x487 || 0x592 <= u && u <= 0x595
        || 0x597 <= u && u <= 0x599 || 0x59C <= u && u <= 0x5A1 || 0x5A8 <= u && u <= 0x5A9
        || 0x5AB <= u && u <= 0x5AC || u == 0x5AF || u == 0x5C4 || 0x610 <= u && u <= 0x617
        || 0x653 <= u && u <= 0x654 || 0x657 <= u && u <= 0x65B || 0x65D <= u && u <= 0x65E
        || 0x6D6 <= u && u <= 0x6DC || 0x6DF <= u && u <= 0x6E2 || u == 0x6E4
        || 0x6E7 <= u && u <= 0x6E8 || 0x6EB <= u && u <= 0x6EC || u == 0x730
        || 0x732 <= u && u <= 0x733 || 0x735 <= u && u <= 0x736 || u == 0x73A || u == 0x73D
        || 0x73F <= u && u <= 0x741 || u == 0x743 || u == 0x745 || u == 0x747
        || 0x749 <= u && u <= 0x74A || 0x7EB <= u && u <= 0x7F1 || u == 0x7F3
        || 0x816 <= u && u <= 0x819 || 0x81B <= u && u <= 0x823 || 0x825 <= u && u <= 0x827
        || 0x829 <= u && u <= 0x82D || u == 0x898 || 0x89C <= u && u <= 0x89F
}

/// The marks above their base, from U+08CA to U+20F0.
pub open spec fn above_2(u: u32) -> bool {
    ||| 0x8CA <= u <= 0x8CE
    ||| 0x8D4 <= u <= 0x8E1
    ||| 0x8E4 <= u <= 0x8E5
    ||| 0x8E7 <= u <= 0x8E8
    ||| 0x8EA <= u <= 0x8EC
    ||| 0x8F3 <= u <= 0x8F5
    ||| 0x8F7 <= u <= 0x8F8
    ||| 0x8FB <= u <= 0x8FF
    ||| u == 0x951
    ||| 0x953 <= u <= 0x954
    ||| u == 0x9FE
    ||| 0xF82 <= u <= 0xF83
    ||| 0xF86 <= u <= 0xF87
    ||| 0x135D <= u <= 0x135F
    ||| u == 0x17DD
    ||| u == 0x193A
    ||| u == 0x1A17
    ||| 0x1A75 <= u <= 0x1A7C
    ||| 0x1AB0 <= u <= 0x1AB4
    ||| 0x1ABB <= u <= 0x1ABC
    ||| 0x1AC1 <= u <= 0x1AC2
    ||| 0x1AC5 <= u <= 0x1AC9
    ||| 0x1ACB <= u <= 0x1ACE
    ||| u == 0x1B6B
    ||| 0x1B6D <= u <= 0x1B73
    ||| 0x1CD0 <= u <= 0x1CD2
    ||| 0x1CDA <= u <= 0x1CDB
    ||| u == 0x1CE0
    ||| u == 0x1CF4
    ||| 0x1CF8 <= u <= 0x1CF9
    ||| 0x1DC0 <= u <= 0x1DC1
    ||| 0x1DC3 <= u <= 0x1DC9
    ||| 0x1DCB <= u <= 0x1DCC
    ||| 0x1DD1 <= u <= 0x1DF5
    ||| u == 0x1DFB
    ||| u == 0x1DFE
    ||| 0x20D0 <= u <= 0x20D1
    ||| 0x20D4 <= u <= 0x20D7
    ||| 0x20DB <= u <= 0x20DC
    ||| u == 0x20E1
    ||| u == 0x20E7
    ||| u == 0x20E9
    ||| u == 0x20F0
}

fn is_above_2(u: u32) -> (r: bool)
    ensures
        r == above_2(u),
{
    0x8CA <= u && u <= 0x8CE || 0x8D4 <= u && u <= 0x8E1 || 0x8E4 <= u && u <= 0x8E5
        || 0x8E7 <= u && u <= 0x8E8 || 0x8EA <= u && u <= 0x8EC || 0x8F3 <= u && u <= 0x8F5
        || 0x8F7 <= u && u <= 0x8F8 || 0x8FB <= u && u <= 0x8FF || u == 0x951
        || 0x953 <= u && u <= 0x954 || u == 0x9FE || 0xF82 <= u && u <= 0xF83
        || 0xF86 <= u && u <= 0xF87 || 0x135D <= u && u <= 0x135F || u == 0x17DD || u == 0x193A
        || u == 0x1A17 || 0x1A75 <= u && u <= 0x1A7C || 0x1AB0 <= u && u <= 0x1AB4
        || 0x1ABB <= u && u <= 0x1ABC || 0x1AC1 <= u && u <= 0x1AC2 || 0x1AC5 <= u && u <= 0x1AC9
        || 0x1ACB <= u && u <= 0x1ACE || u == 0x1B6B || 0x1B6D <= u && u <= 0x1B73
        || 0x1CD0 <= u && u <= 0x1CD2 || 0x1CDA <= u && u <= 0x1CDB || u == 0x1CE0 || u == 0x1CF4
        || 0x1CF8 <= u && u <= 0x1CF9 || 0x1DC0 <= u && u <= 0x1DC1 || 0x1DC3 <= u && u <= 0x1DC9
        || 0x1DCB <= u && u <= 0x1DCC || 0x1DD1 <= u && u <= 0x1DF5 || u == 0x1DFB || u == 0x1DFE
        || 0x20D0 <= u && u <= 0x20D1 || 0x20D4 <= u && u <= 0x20D7 || 0x20DB <= u && u <= 0x20DC
        || u == 0x20E1 || u == 0x20E7 || u == 0x20E9 || u == 0x20F0
}

/// The marks above their base, from U+2CEF to U+1E949.
pub open spec fn above_3(u: u32) -> bool {
    ||| 0x2CEF <= u <= 0x2CF1
    ||| 0x2DE0 <= u <= 0x2DFF
    ||| u == 0xA66F
    ||| 0xA674 <= u <= 0xA67D
    ||| 0xA69E <= u <= 0xA69F
    ||| 0xA6F0 <= u <= 0xA6F1
    ||| 0xA8E0 <= u <= 0xA8F1
    ||| u == 0xAAB0
    ||| 0xAAB2 <= u <= 0xAAB3
    ||| 0xAAB7 <= u <= 0xAAB8
    ||| 0xAABE <= u <= 0xAABF
    ||| u == 0xAAC1
    ||| 0xFE20 <= u <= 0xFE26
    ||| 0xFE2E <= u <= 0xFE2F
    ||| 0x10376 <= u <= 0x1037A
    ||| u == 0x10A0F
    ||| u == 0x10A38
    ||| u == 0x10AE5
    ||| 0x10D24 <= u <= 0x10D27
    ||| 0x10EAB <= u <= 0x10EAC
    ||| 0x10F48 <= u <= 0x10F4A
    ||| u == 0x10F4C
    ||| u == 0x10F82
    ||| u == 0x10F84
    ||| 0x11100 <= u <= 0x11102
    ||| 0x11366 <= u <= 0x1136C
    ||| 0x11370 <= u <= 0x11374
    ||| u == 0x1145E
    ||| 0x16B30 <= u <= 0x16B36
    ||| 0x1D185 <= u <= 0x1D189
    ||| 0x1D1AA <= u <= 0x1D1AD
    ||| 0x1D242 <= u <= 0x1D244
    ||| 0x1E000 <= u <= 0x1E006
    ||| 0x1E008 <= u <= 0x1E018
    ||| 0x1E01B <= u <= 0x1E021
    ||| 0x1E023 <= u <= 0x1E024
    ||| 0x1E026 <= u <= 0x1E02A
    ||| 0x1E130 <= u <= 0x1E136
    ||| u == 0x1E2AE
    ||| 0x1E2EC <= u <= 0x1E2EF
    ||| 0x1E944 <= u <= 0x1E949
}

fn is_above_3(u: u32) -> (r: bool)
    ensures
        r == above_3(u),
{
    0x2CEF <= u && u <= 0x2CF1 || 0x2DE0 <= u && u <= 0x2DFF || u == 0xA66F
        || 0xA674 <= u && u <= 0xA67D || 0xA69E <= u && u <= 0xA69F || 0xA6F0 <= u && u <= 0xA6F1
        || 0xA8E0 <= u && u <= 0xA8F1 || u == 0xAAB0 || 0xAAB2 <= u && u <= 0xAAB3
        || 0xAAB7 <= u && u <= 0xAAB8 || 0xAABE <= u && u <= 0xAABF || u == 0xAAC1
        || 0xFE20 <= u && u <= 0xFE26 || 0xFE2E <= u && u <= 0xFE2F
        || 0x10376 <= u && u <= 0x1037A || u == 0x10A0F || u == 0x10A38 || u == 0x10AE5
        || 0x10D24 <= u && u <= 0x10D27 || 0x10EAB <= u && u <= 0x10EAC
        || 0x10F48 <= u && u <= 0x10F4A || u == 0x10F4C || u == 0x10F82 || u == 0x10F84
        || 0x11100 <= u && u <= 0x11102 || 0x11366 <= u && u <= 0x1136C
        || 0x11370 <= u && u <= 0x11374 || u == 0x1145E || 0x16B30 <= u && u <= 0x16B36
        || 0x1D185 <= u && u <= 0x1D189 || 0x1D1AA <= u && u <= 0x1D1AD
        || 0x1D242 <= u && u <= 0x1D244 || 0x1E000 <= u && u <= 0x1E006
        || 0x1E008 <= u && u <= 0x1E018 || 0x1E01B <= u && u <= 0x1E021
        || 0x1E023 <= u && u <= 0x1E024 || 0x1E026 <= u && u <= 0x1E02A
        || 0x1E130 <= u && u <= 0x1E136 || u == 0x1E2AE || 0x1E2EC <= u && u <= 0x1E2EF
        || 0x1E944 <= u && u <= 0x1E949
}

/// The marks of the other classes, from U+0315 to U+0E3A.
pub open spec fn other_1(u: u32) -> bool {
    ||| u == 0x315
    ||| u == 0x31A
    ||| u == 0x345
    ||| u == 0x358
    ||| 0x35C <= u <= 0x362
    ||| u == 0x59A
    ||| 0x5AD <= u <= 0x5AE
    ||| 0x5B0 <= u <= 0x5BD
    ||| u == 0x5BF
    ||| 0x5C1 <= u <= 0x5C2
    ||| u == 0x5C7
    ||| 0x618 <= u <= 0x61A
    ||| 0x64B <= u <= 0x652
    ||| u == 0x670
    ||| u == 0x711
    ||| 0x8F0 <= u <= 0x8F2
    ||| u == 0x93C
    ||| u == 0x94D
    ||| u == 0x9BC
    ||| u == 0x9CD
    ||| u == 0xA3C
    ||| u == 0xA4D
    ||| u == 0xABC
    ||| u == 0xACD
    ||| u == 0xB3C
    ||| u == 0xB4D
    ||| u == 0xBCD
    ||| u == 0xC3C
    ||| u == 0xC4D
    ||| 0xC55 <= u <= 0xC56
    ||| u == 0xCBC
    ||| u == 0xCCD
    ||| 0xD3B <= u <= 0xD3C
    ||| u == 0xD4D
    ||| u == 0xDCA
    ||| 0xE38 <= u <= 0xE3A
}

fn is_other_1(u: u32) -> (r: bool)
    ensures
        r == other_1(u),
{
    u == 0x315 || u == 0x31A || u == 0x345 || u == 0x358 || 0x35C <= u && u <= 0x362
        || u == 0x59A || 0x5AD <= u && u <= 0x5AE || 0x5B0 <= u && u <= 0x5BD || u == 0x5BF
        || 0x5C1 <= u && u <= 0x5C2 || u == 0x5C7 || 0x618 <= u && u <= 0x61A
        || 0x64B <= u && u <= 0x652 || u == 0x670 || u == 0x711 || 0x8F0 <= u && u <= 0x8F2
        || u == 0x93C || u == 0x94D || u == 0x9BC || u == 0x9CD || u == 0xA3C || u == 0xA4D
        || u == 0xABC || u == 0xACD || u == 0xB3C || u == 0xB4D || u == 0xBCD || u == 0xC3C
        || u == 0xC4D || 0xC55 <= u && u <= 0xC56 || u == 0xCBC || u == 0xCCD
        || 0xD3B <= u && u <= 0xD3C || u == 0xD4D || u == 0xDCA || 0xE38 <= u && u <= 0xE3A
}

/// The marks of the other classes, from U+0E48 to U+ABED.
pub open spec fn other_2(u: u32) -> bool {
    ||| 0xE48 <= u <= 0xE4B
    ||| 0xEB8 <= u <= 0xEBA
    ||| 0xEC8 <= u <= 0xECB
    ||| 0xF71 <= u <= 0xF75
    ||| 0xF7A <= u <= 0xF7D
    ||| 0xF80 <= u <= 0xF81
    ||| u == 0xF84
    ||| u == 0x1037
    ||| 0x1039 <= u <= 0x103A
    ||| 0x1714 <= u <= 0x1715
    ||| u == 0x1734
    ||| u == 0x17D2
    ||| u == 0x18A9
    ||| u == 0x1939
    ||| u == 0x1A60
    ||| u == 0x1B34
    ||| u == 0x1B44
    ||| 0x1BAA <= u <= 0x1BAB
    ||| u == 0x1BE6
    ||| 0x1BF2 <= u <= 0x1BF3
    ||| u == 0x1C37
    ||| 0x1DCD <= u <= 0x1DCE
    ||| 0x1DF6 <= u <= 0x1DF8
    ||| u == 0x1DFA
    ||| u == 0x1DFC
    ||| u == 0x2D7F
    ||| 0x302A <= u <= 0x302F
    ||| 0x3099 <= u <= 0x309A
    ||| u == 0xA806
    ||| u == 0xA82C
    ||| u == 0xA8C4
    ||| u == 0xA953
    ||| u == 0xA9B3
    ||| u == 0xA9C0
    ||| u == 0xAAF6
    ||| u == 0xABED
}

fn is_other_2(u: u32) -> (r: bool)
    ensures
        r == other_2(u),
{
    0xE48 <= u && u <= 0xE4B || 0xEB8 <= u && u <= 0xEBA || 0xEC8 <= u && u <= 0xECB
        || 0xF71 <= u && u <= 0xF75 || 0xF7A <= u && u <= 0xF7D || 0xF80 <= u && u <= 0xF81
        || u == 0xF84 || u == 0x1037 || 0x1039 <= u && u <= 0x103A || 0x1714 <= u && u <= 0x1715
        || u == 0x1734 || u == 0x17D2 || u == 0x18A9 || u == 0x1939 || u == 0x1A60 || u == 0x1B34
        || u == 0x1B44 || 0x1BAA <= u && u <= 0x1BAB || u == 0x1BE6 || 0x1BF2 <= u && u <= 0x1BF3
        || u == 0x1C37 || 0x1DCD <= u && u <= 0x1DCE || 0x1DF6 <= u && u <= 0x1DF8 || u == 0x1DFA
        || u == 0x1DFC || u == 0x2D7F || 0x302A <= u && u <= 0x302F || 0x3099 <= u && u <= 0x309A
        || u == 0xA806 || u == 0xA82C || u == 0xA8C4 || u == 0xA953 || u == 0xA9B3 || u == 0xA9C0
        || u == 0xAAF6 || u == 0xABED
}

/// The marks of the other classes, from U+FB1E to U+1E94A.
pub open spec fn other_3(u: u32) -> bool {
    ||| u == 0xFB1E
    ||| u == 0x10A3F
    ||| u == 0x11046
    ||| u == 0x11070
    ||| u == 0x1107F
    ||| 0x110B9 <= u <= 0x110BA
    ||| 0x11133 <= u <= 0x11134
    ||| u == 0x11173
    ||| u == 0x111C0
    ||| u == 0x111CA
    ||| 0x11235 <= u <= 0x11236
    ||| 0x112E9 <= u <= 0x112EA
    ||| 0x1133B <= u <= 0x1133C
    ||| u == 0x1134D
    ||| u == 0x11442
    ||| u == 0x11446
    ||| 0x114C2 <= u <= 0x114C3
    ||| 0x115BF <= u <= 0x115C0
    ||| u == 0x1163F
    ||| 0x116B6 <= u <= 0x116B7
    ||| u == 0x1172B
    ||| 0x11839 <= u <= 0x1183A
    ||| 0x1193D <= u <= 0x1193E
    ||| u == 0x11943
    ||| u == 0x119E0
    ||| u == 0x11A34
    ||| u == 0x11A47
    ||| u == 0x11A99
    ||| u == 0x11C3F
    ||| u == 0x11D42
    ||| 0x11D44 <= u <= 0x11D45
    ||| u == 0x11D97
    ||| 0x16FF0 <= u <= 0x16FF1
    ||| u == 0x1D16D
    ||| u == 0x1E94A
}

fn is_other_3(u: u32) -> (r: bool)
    ensures
        r == other_3(u),
{
    u == 0xFB1E || u == 0x10A3F || u == 0x11046 || u == 0x11070 || u == 0x1107F
        || 0x110B9 <= u && u <= 0x110BA || 0x11133 <= u && u <= 0x11134 || u == 0x11173
        || u == 0x111C0 || u == 0x111CA || 0x11235 <= u && u <= 0x11236
        || 0x112E9 <= u && u <= 0x112EA || 0x1133B <= u && u <= 0x1133C || u == 0x1134D
        || u == 0x11442 || u == 0x11446 || 0x114C2 <= u && u <= 0x114C3
        || 0x115BF <= u && u <= 0x115C0 || u == 0x1163F || 0x116B6 <= u && u <= 0x116B7
        || u == 0x1172B || 0x11839 <= u && u <= 0x1183A || 0x1193D <= u && u <= 0x1193E
        || u == 0x11943 || u == 0x119E0 || u == 0x11A34 || u == 0x11A47 || u == 0x11A99
        || u == 0x11C3F || u == 0x11D42 || 0x11D44 <= u && u <= 0x11D45 || u == 0x11D97
        || 0x16FF0 <= u && u <= 0x16FF1 || u == 0x1D16D || u == 0x1E94A
}

/// The class of a character.
pub open spec fn class_of(c: char) -> MarkClass {
    let u = c as u32;
    if u < 0x300 {
        MarkClass::Starter
    } else if above_1(u) || above_2(u) || above_3(u) {
        MarkClass::Above
    } else if below_1(u) || below_2(u) {
        MarkClass::Below
    } else if other_1(u) || other_2(u) || other_3(u) {
        MarkClass::Other
    } else if overlay(u) {
        MarkClass::Overlay
    } else if attached_below(u) {
        MarkClass::AttachedBelow
    } else if attached_above(u) {
        MarkClass::AttachedAbove
    } else {
        MarkClass::Starter
    }
}

/// Looks up the class of a character.
pub fn mark_class(c: char) -> (r: MarkClass)
    ensures
        r == class_of(c),
{
    let u: u32 = c as u32;
    if u < 0x300 {
        MarkClass::Starter
    } else if is_above_1(u) || is_above_2(u) || is_above_3(u) {
        MarkClass::Above
    } else if is_below_1(u) || is_below_2(u) {
        MarkClass::Below
    } else if is_other_1(u) || is_other_2(u) || is_other_3(u) {
        MarkClass::Other
    } else if is_overlay(u) {
        MarkClass::Overlay
    } else if is_attached_below(u) {
        MarkClass::AttachedBelow
    } else if is_attached_above(u) {
        MarkClass::AttachedAbove
    } else {
        MarkClass::Starter
    }
}

// ── Compositions ────────────────────────────────────────────────────────────

/// The composed form of a character with a grave, if it has one.
pub open spec fn with_grave(base: char) -> Option<char> {
    match base {
        'A' => Some('\u{C0}'),
        'E' => Some('\u{C8}'),
        'I' => Some('\u{CC}'),
        'N' => Some('\u{1F8}'),
        'O' => Some('\u{D2}'),
        'U' => Some('\u{D9}'),
        'W' => Some('\u{1E80}'),
        'Y' => Some('\u{1EF2}'),
        'a' => Some('\u{E0}'),
        'e' => Some('\u{E8}'),
        'i' => Some('\u{EC}'),
        'n' => Some('\u{1F9}'),
        'o' => Some('\u{F2}'),
        'u' => Some('\u{F9}'),
        'w' => Some('\u{1E81}'),
        'y' => Some('\u{1EF3}'),
        _ => None,
    }
}

fn has_grave(base: char) -> (r: bool)
    ensures
        r == with_grave(base) is Some,
{
    match base {
        'A' | 'E' | 'I' | 'N' | 'O' | 'U' | 'W' | 'Y' | 'a' | 'e' | 'i' | 'n' | 'o' | 'u' | 'w'
        | 'y' => true,
        _ => false,
    }
}

/// The composed form of a character with an acute, if it has one.
pub open spec fn with_acute(base: char) -> Option<char> {
    match base {
        'A' => Some('\u{C1}'),
        'C' => Some('\u{106}'),
        'E' => Some('\u{C9}'),
        'G' => Some('\u{1F4}'),
        'I' => Some('\u{CD}'),
        'K' => Some('\u{1E30}'),
        'L' => Some('\u{139}'),
        'M' => Some('\u{1E3E}'),
        'N' => Some('\u{143}'),
        'O' => Some('\u{D3}'),
        'P' => Some('\u{1E54}'),
        'R' => Some('\u{154}'),
        'S' => Some('\u{15A}'),
        'U' => Some('\u{DA}'),
        'W' => Some('\u{1E82}'),
        'Y' => Some('\u{DD}'),
        'Z' => Some('\u{179}'),
        'a' => Some('\u{E1}'),
        'c' => Some('\u{107}'),
        'e' => Some('\u{E9}'),
        'g' => Some('\u{1F5}'),
        'i' => Some('\u{ED}'),
        'k' => Some('\u{1E31}'),
        'l' => Some('\u{13A}'),
        'm' => Some('\u{1E3F}'),
        'n' => Some('\u{144}'),
        'o' => Some('\u{F3}'),
        'p' => Some('\u{1E55}'),
        'r' => Some('\u{155}'),
        's' => Some('\u{15B}'),
        'u' => Some('\u{FA}'),
        'w' => Some('\u{1E83}'),
        'y' => Some('\u{FD}'),
        'z' => Some('\u{17A}'),
        _ => None,
    }
}

fn has_acute(base: char) -> (r: bool)
    ensures
        r == with_acute(base) is Some,
{
    match base {
        'A' | 'C' | 'E' | 'G' | 'I' | 'K' | 'L' | 'M' | 'N' | 'O' | 'P' | 'R' | 'S' | 'U' | 'W'
        | 'Y' | 'Z' | 'a' | 'c' | 'e' | 'g' | 'i' | 'k' | 'l' | 'm' | 'n' | 'o' | 'p' | 'r' | 's'
        | 'u' | 'w' | 'y' | 'z' => true,
        _ => false,
    }
}

/// The composed form of a character with a circumflex, if it has one.
pub open spec fn with_circumflex(base: char) -> Option<char> {
    match base {
        'A' => Some('\u{C2}'),
        'C' => Some('\u{108}'),
        'E' => Some('\u{CA}'),
        'G' => Some('\u{11C}'),
        'H' => Some('\u{124}'),
        'I' => Some('\u{CE}'),
        'J' => Some('\u{134}'),
        'O' => Some('\u{D4}'),
        'S' => Some('\u{15C}'),
        'U' => Some('\u{DB}'),
        'W' => Some('\u{174}'),
        'Y' => Some('\u{176}'),
        'Z' => Some('\u{1E90}'),
        'a' => Some('\u{E2}'),
        'c' => Some('\u{109}'),
        'e' => Some('\u{EA}'),
        'g' => Some('\u{11D}'),
        'h' => Some('\u{125}'),
        'i' => Some('\u{EE}'),
        'j' => Some('\u{135}'),
        'o' => Some('\u{F4}'),
        's' => Some('\u{15D}'),
        'u' => Some('\u{FB}'),
        'w' => Some('\u{175}'),
        'y' => Some('\u{177}'),
        'z' => Some('\u{1E91}'),
        _ => None,
    }
}

fn has_circumflex(base: char) -> (r: bool)
    ensures
        r == with_circumflex(base) is Some,
{
    match base {
        'A' | 'C' | 'E' | 'G' | 'H' | 'I' | 'J' | 'O' | 'S' | 'U' | 'W' | 'Y' | 'Z' | 'a' | 'c'
        | 'e' | 'g' | 'h' | 'i' | 'j' | 'o' | 's' | 'u' | 'w' | 'y' | 'z' => true,
        _ => false,
    }
}

/// The composed form of a character with a tilde, if it has one.
pub open spec fn with_tilde(base: char) -> Option<char> {
    match base {
        'A' => Some('\u{C3}'),
        'E' => Some('\u{1EBC}'),
        'I' => Some('\u{128}'),
        'N' => Some('\u{D1}'),
        'O' => Some('\u{D5}'),
        'U' => Some('\u{168}'),
        'V' => Some('\u{1E7C}'),
        'Y' => Some('\u{1EF8}'),
        'a' => Some('\u{E3}'),
        'e' => Some('\u{1EBD}'),
        'i' => Some('\u{129}'),
        'n' => Some('\u{F1}'),
        'o' => Some('\u{F5}'),
        'u' => Some('\u{169}'),
        'v' => Some('\u{1E7D}'),
        'y' => Some('\u{1EF9}'),
        _ => None,
    }
}

fn has_tilde(base: char) -> (r: bool)
    ensures
        r == with_tilde(base) is Some,
{
    match base {
        'A' | 'E' | 'I' | 'N' | 'O' | 'U' | 'V' | 'Y' | 'a' | 'e' | 'i' | 'n' | 'o' | 'u' | 'v'
        | 'y' => true,
        _ => false,
    }
}

/// The composed form of a character with a macron, if it has one.
pub open spec fn with_macron(base: char) -> Option<char> {
    match base {
        'A' => Some('\u{100}'),
        'E' => Some('\u{112}'),
        'G' => Some('\u{1E20}'),
        'I' => Some('\u{12A}'),
        'O' => Some('\u{14C}'),
        'U' => Some('\u{16A}'),
        'Y' => Some('\u{232}'),
        'a' => Some('\u{101}'),
        'e' => Some('\u{113}'),
        'g' => Some('\u{1E21}'),
        'i' => Some('\u{12B}'),
        'o' => Some('\u{14D}'),
        'u' => Some('\u{16B}'),
        'y' => Some('\u{233}'),
        _ => None,
    }
}

fn has_macron(base: char) -> (r: bool)
    ensures
        r == with_macron(base) is Some,
{
    match base {
        'A' | 'E' | 'G' | 'I' | 'O' | 'U' | 'Y' | 'a' | 'e' | 'g' | 'i' | 'o' | 'u' | 'y' => true,
        _ => false,
    }
}

/// The composed form of a character with a breve, if it has one.
pub open spec fn with_breve(base: char) -> Option<char> {
    match base {
        'A' => Some('\u{102}'),
        'E' => Some('\u{114}'),
        'G' => Some('\u{11E}'),
        'I' => Some('\u{12C}'),
        'O' => Some('\u{14E}'),
        'U' => Some('\u{16C}'),
        'a' => Some('\u{103}'),
        'e' => Some('\u{115}'),
        'g' => Some('\u{11F}'),
        'i' => Some('\u{12D}'),
        'o' => Some('\u{14F}'),
        'u' => Some('\u{16D}'),
        _ => None,
    }
}

fn has_breve(base: char) -> (r: bool)
    ensures
        r == with_breve(base) is Some,
{
    match base {
        'A' | 'E' | 'G' | 'I' | 'O' | 'U' | 'a' | 'e' | 'g' | 'i' | 'o' | 'u' => true,
        _ => false,
    }
}

/// The composed form of a character with a dot above, if it has one.
pub open spec fn with_dot_above(base: char) -> Option<char> {
    match base {
        'A' => Some('\u{226}'),
        'B' => Some('\u{1E02}'),
        'C' => Some('\u{10A}'),
        'D' => Some('\u{1E0A}'),
        'E' => Some('\u{116}'),
        'F' => Some('\u{1E1E}'),
        'G' => Some('\u{120}'),
        'H' => Some('\u{1E22}'),
        'I' => Some('\u{130}'),
        'M' => Some('\u{1E40}'),
        'N' => Some('\u{1E44}'),
        'O' => Some('\u{22E}'),
        'P' => Some('\u{1E56}'),
        'R' => Some('\u{1E58}'),
        'S' => Some('\u{1E60}'),
        'T' => Some('\u{1E6A}'),
        'W' => Some('\u{1E86}'),
        'X' => Some('\u{1E8A}'),
        'Y' => Some('\u{1E8E}'),
        'Z' => Some('\u{17B}'),
        'a' => Some('\u{227}'),
        'b' => Some('\u{1E03}'),
        'c' => Some('\u{10B}'),
        'd' => Some('\u{1E0B}'),
        'e' => Some('\u{117}'),
        'f' => Some('\u{1E1F}'),
        'g' => Some('\u{121}'),
        'h' => Some('\u{1E23}'),
        'm' => Some('\u{1E41}'),
        'n' => Some('\u{1E45}'),
        'o' => Some('\u{22F}'),
        'p' => Some('\u{1E57}'),
        'r' => Some('\u{1E59}'),
        's' => Some('\u{1E61}'),
        't' => Some('\u{1E6B}'),
        'w' => Some('\u{1E87}'),
        'x' => Some('\u{1E8B}'),
        'y' => Some('\u{1E8F}'),
        'z' => Some('\u{17C}'),
        _ => None,
    }
}

fn has_dot_above(base: char) -> (r: bool)
    ensures
        r == with_dot_above(base) is Some,
{
    match base {
        'A' | 'B' | 'C' | 'D' | 'E' | 'F' | 'G' | 'H' | 'I' | 'M' | 'N' | 'O' | 'P' | 'R' | 'S'
        | 'T' | 'W' | 'X' | 'Y' | 'Z' | 'a' | 'b' | 'c' | 'd' | 'e' | 'f' | 'g' | 'h' | 'm' | 'n'
        | 'o' | 'p' | 'r' | 's' | 't' | 'w' | 'x' | 'y' | 'z' => true,
        _ => false,
    }
}

/// The composed form of a character with a diaeresis, if it has one.
pub open spec fn with_diaeresis(base: char) -> Option<char> {
    match base {
        'A' => Some('\u{C4}'),
        'E' => Some('\u{CB}'),
        'H' => Some('\u{1E26}'),
        'I' => Some('\u{CF}'),
        'O' => Some('\u{D6}'),
        'U' => Some('\u{DC}'),
        'W' => Some('\u{1E84}'),
        'X' => Some('\u{1E8C}'),
        'Y' => Some('\u{178}'),
        'a' => Some('\u{E4}'),
        'e' => Some('\u{EB}'),
        'h' => Some('\u{1E27}'),
        'i' => Some('\u{EF}'),
        'o' => Some('\u{F6}'),
        't' => Some('\u{1E97}'),
        'u' => Some('\u{FC}'),
        'w' => Some('\u{1E85}'),
        'x' => Some('\u{1E8D}'),
        'y' => Some('\u{FF}'),
        _ => None,
    }
}

fn has_diaeresis(base: char) -> (r: bool)
    ensures
        r == with_diaeresis(base) is Some,
{
    match base {
        'A' | 'E' | 'H' | 'I' | 'O' | 'U' | 'W' | 'X' | 'Y' | 'a' | 'e' | 'h' | 'i' | 'o' | 't'
        | 'u' | 'w' | 'x' | 'y' => true,
        _ => false,
    }
}

/// The composed form of a character with a hook above, if it has one.
pub open spec fn with_hook_above(base: char) -> Option<char> {
    match base {
        'A' => Some('\u{1EA2}'),
        'E' => Some('\u{1EBA}'),
        'I' => Some('\u{1EC8}'),
        'O' => Some('\u{1ECE}'),
        'U' => Some('\u{1EE6}'),
        'Y' => Some('\u{1EF6}'),
        'a' => Some('\u{1EA3}'),
        'e' => Some('\u{1EBB}'),
        'i' => Some('\u{1EC9}'),
        'o' => Some('\u{1ECF}'),
        'u' => Some('\u{1EE7}'),
        'y' => Some('\u{1EF7}'),
        _ => None,
    }
}

fn has_hook_above(base: char) -> (r: bool)
    ensures
        r == with_hook_above(base) is Some,
{
    match base {
        'A' | 'E' | 'I' | 'O' | 'U' | 'Y' | 'a' | 'e' | 'i' | 'o' | 'u' | 'y' => true,
        _ => false,
    }
}

/// The composed form of a character with a ring above, if it has one.
pub open spec fn with_ring_above(base: char) -> Option<char> {
    match base {
        'A' => Some('\u{C5}'),
        'U' => Some('\u{16E}'),
        'a' => Some('\u{E5}'),
        'u' => Some('\u{16F}'),
        'w' => Some('\u{1E98}'),
        'y' => Some('\u{1E99}'),
        _ => None,
    }
}

fn has_ring_above(base: char) -> (r: bool)
    ensures
        r == with_ring_above(base) is Some,
{
    match base {
        'A' | 'U' | 'a' | 'u' | 'w' | 'y' => true,
        _ => false,
    }
}

/// The composed form of a character with a double acute, if it has one.
pub open spec fn with_double_acute(base: char) -> Option<char> {
    match base {
        'O' => Some('\u{150}'),
        'U' => Some('\u{170}'),
        'o' => Some('\u{151}'),
        'u' => Some('\u{171}'),
        _ => None,
    }
}

fn has_double_acute(base: char) -> (r: bool)
    ensures
        r == with_double_acute(base) is Some,
{
    match base {
        'O' | 'U' | 'o' | 'u' => true,
        _ => false,
    }
}

/// The composed form of a character with a caron, if it has one.
pub open spec fn with_caron(base: char) -> Option<char> {
    match base {
        'A' => Some('\u{1CD}'),
        'C' => Some('\u{10C}'),
        'D' => Some('\u{10E}'),
        'E' => Some('\u{11A}'),
        'G' => Some('\u{1E6}'),
        'H' => Some('\u{21E}'),
        'I' => Some('\u{1CF}'),
        'K' => Some('\u{1E8}'),
        'L' => Some('\u{13D}'),
        'N' => Some('\u{147}'),
        'O' => Some('\u{1D1}'),
        'R' => Some('\u{158}'),
        'S' => Some('\u{160}'),
        'T' => Some('\u{164}'),
        'U' => Some('\u{1D3}'),
        'Z' => Some('\u{17D}'),
        'a' => Some('\u{1CE}'),
        'c' => Some('\u{10D}'),
        'd' => Some('\u{10F}'),
        'e' => Some('\u{11B}'),
        'g' => Some('\u{1E7}'),
        'h' => Some('\u{21F}'),
        'i' => Some('\u{1D0}'),
        'j' => Some('\u{1F0}'),
        'k' => Some('\u{1E9}'),
        'l' => Some('\u{13E}'),
        'n' => Some('\u{148}'),
        'o' => Some('\u{1D2}'),
        'r' => Some('\u{159}'),
        's' => Some('\u{161}'),
        't' => Some('\u{165}'),
        'u' => Some('\u{1D4}'),
        'z' => Some('\u{17E}'),
        _ => None,
    }
}

fn has_caron(base: char) -> (r: bool)
    ensures
        r == with_caron(base) is Some,
{
    match base {
        'A' | 'C' | 'D' | 'E' | 'G' | 'H' | 'I' | 'K' | 'L' | 'N' | 'O' | 'R' | 'S' | 'T' | 'U'
        | 'Z' | 'a' | 'c' | 'd' | 'e' | 'g' | 'h' | 'i' | 'j' | 'k' | 'l' | 'n' | 'o' | 'r' | 's'
        | 't' | 'u' | 'z' => true,
        _ => false,
    }
}

/// The composed form of a character with a double grave, if it has one.
pub open spec fn with_double_grave(base: char) -> Option<char> {
    match base {
        'A' => Some('\u{200}'),
        'E' => Some('\u{204}'),
        'I' => Some('\u{208}'),
        'O' => Some('\u{20C}'),
        'R' => Some('\u{210}'),
        'U' => Some('\u{214}'),
        'a' => Some('\u{201}'),
        'e' => Some('\u{205}'),
        'i' => Some('\u{209}'),
        'o' => Some('\u{20D}'),
        'r' => Some('\u{211}'),
        'u' => Some('\u{215}'),
        _ => None,
    }
}

fn has_double_grave(base: char) -> (r: bool)
    ensures
        r == with_double_grave(base) is Some,
{
    match base {
        'A' | 'E' | 'I' | 'O' | 'R' | 'U' | 'a' | 'e' | 'i' | 'o' | 'r' | 'u' => true,
        _ => false,
    }
}

/// The composed form of a character with an inverted breve, if it has one.
pub open spec fn with_inverted_breve(base: char) -> Option<char> {
    match base {
        'A' => Some('\u{202}'),
        'E' => Some('\u{206}'),
        'I' => Some('\u{20A}'),
        'O' => Some('\u{20E}'),
        'R' => Some('\u{212}'),
        'U' => Some('\u{216}'),
        'a' => Some('\u{203}'),
        'e' => Some('\u{207}'),
        'i' => Some('\u{20B}'),
        'o' => Some('\u{20F}'),
        'r' => Some('\u{213}'),
        'u' => Some('\u{217}'),
        _ => None,
    }
}

fn has_inverted_breve(base: char) -> (r: bool)
    ensures
        r == with_inverted_breve(base) is Some,
{
    match base {
        'A' | 'E' | 'I' | 'O' | 'R' | 'U' | 'a' | 'e' | 'i' | 'o' | 'r' | 'u' => true,
        _ => false,
    }
}

/// The composed form of a character with a horn, if it has one.
pub open spec fn with_horn(base: char) -> Option<char> {
    match base {
        'O' => Some('\u{1A0}'),
        'U' => Some('\u{1AF}'),
        'o' => Some('\u{1A1}'),
        'u' => Some('\u{1B0}'),
        _ => None,
    }
}

fn has_horn(base: char) -> (r: bool)
    ensures
        r == with_horn(base) is Some,
{
    match base {
        'O' | 'U' | 'o' | 'u' => true,
        _ => false,
    }
}

/// The composed form of a character with a dot below, if it has one.
pub open spec fn with_dot_below(base: char) -> Option<char> {
    match base {
        'A' => Some('\u{1EA0}'),
        'B' => Some('\u{1E04}'),
        'D' => Some('\u{1E0C}'),
        'E' => Some('\u{1EB8}'),
        'H' => Some('\u{1E24}'),
        'I' => Some('\u{1ECA}'),
        'K' => Some('\u{1E32}'),
        'L' => Some('\u{1E36}'),
        'M' => Some('\u{1E42}'),
        'N' => Some('\u{1E46}'),
        'O' => Some('\u{1ECC}'),
        'R' => Some('\u{1E5A}'),
        'S' => Some('\u{1E62}'),
        'T' => Some('\u{1E6C}'),
        'U' => Some('\u{1EE4}'),
        'V' => Some('\u{1E7E}'),
        'W' => Some('\u{1E88}'),
        'Y' => Some('\u{1EF4}'),
        'Z' => Some('\u{1E92}'),
        'a' => Some('\u{1EA1}'),
        'b' => Some('\u{1E05}'),
        'd' => Some('\u{1E0D}'),
        'e' => Some('\u{1EB9}'),
        'h' => Some('\u{1E25}'),
        'i' => Some('\u{1ECB}'),
        'k' => Some('\u{1E33}'),
        'l' => Some('\u{1E37}'),
        'm' => Some('\u{1E43}'),
        'n' => Some('\u{1E47}'),
        'o' => Some('\u{1ECD}'),
        'r' => Some('\u{1E5B}'),
        's' => Some('\u{1E63}'),
        't' => Some('\u{1E6D}'),
        'u' => Some('\u{1EE5}'),
        'v' => Some('\u{1E7F}'),
        'w' => Some('\u{1E89}'),
        'y' => Some('\u{1EF5}'),
        'z' => Some('\u{1E93}'),
        _ => None,
    }
}

fn has_dot_below(base: char) -> (r: bool)
    ensures
        r == with_dot_below(base) is Some,
{
    match base {
        'A' | 'B' | 'D' | 'E' | 'H' | 'I' | 'K' | 'L' | 'M' | 'N' | 'O' | 'R' | 'S' | 'T' | 'U'
        | 'V' | 'W' | 'Y' | 'Z' | 'a' | 'b' | 'd' | 'e' | 'h' | 'i' | 'k' | 'l' | 'm' | 'n' | 'o'
        | 'r' | 's' | 't' | 'u' | 'v' | 'w' | 'y' | 'z' => true,
        _ => false,
    }
}

/// The composed form of a character with a diaeresis below, if it has one.
pub open spec fn with_diaeresis_below(base: char) -> Option<char> {
    match base {
        'U' => Some('\u{1E72}'),
        'u' => Some('\u{1E73}'),
        _ => None,
    }
}

fn has_diaeresis_below(base: char) -> (r: bool)
    ensures
        r == with_diaeresis_below(base) is Some,
{
    match base {
        'U' | 'u' => true,
        _ => false,
    }
}

/// The composed form of a character with a ring below, if it has one.
pub open spec fn with_ring_below(base: char) -> Option<char> {
    match base {
        'A' => Some('\u{1E00}'),
        'a' => Some('\u{1E01}'),
        _ => None,
    }
}

fn has_ring_below(base: char) -> (r: bool)
    ensures
        r == with_ring_below(base) is Some,
{
    match base {
        'A' | 'a' => true,
        _ => false,
    }
}

/// The composed form of a character with a comma below, if it has one.
pub open spec fn with_comma_below(base: char) -> Option<char> {
    match base {
        'S' => Some('\u{218}'),
        'T' => Some('\u{21A}'),
        's' => Some('\u{219}'),
        't' => Some('\u{21B}'),
        _ => None,
    }
}

fn has_comma_below(base: char) -> (r: bool)
    ensures
        r == with_comma_below(base) is Some,
{
    match base {
        'S' | 'T' | 's' | 't' => true,
        _ => false,
    }
}

/// The composed form of a character with a cedilla, if it has one.
pub open spec fn with_cedilla(base: char) -> Option<char> {
    match base {
        'C' => Some('\u{C7}'),
        'D' => Some('\u{1E10}'),
        'E' => Some('\u{228}'),
        'G' => Some('\u{122}'),
        'H' => Some('\u{1E28}'),
        'K' => Some('\u{136}'),
        'L' => Some('\u{13B}'),
        'N' => Some('\u{145}'),
        'R' => Some('\u{156}'),
        'S' => Some('\u{15E}'),
        'T' => Some('\u{162}'),
        'c' => Some('\u{E7}'),
        'd' => Some('\u{1E11}'),
        'e' => Some('\u{229}'),
        'g' => Some('\u{123}'),
        'h' => Some('\u{1E29}'),
        'k' => Some('\u{137}'),
        'l' => Some('\u{13C}'),
        'n' => Some('\u{146}'),
        'r' => Some('\u{157}'),
        's' => Some('\u{15F}'),
        't' => Some('\u{163}'),
        _ => None,
    }
}

fn has_cedilla(base: char) -> (r: bool)
    ensures
        r == with_cedilla(base) is Some,
{
    match base {
        'C' | 'D' | 'E' | 'G' | 'H' | 'K' | 'L' | 'N' | 'R' | 'S' | 'T' | 'c' | 'd' | 'e' | 'g'
        | 'h' | 'k' | 'l' | 'n' | 'r' | 's' | 't' => true,
        _ => false,
    }
}

/// The composed form of a character with an ogonek, if it has one.
pub open spec fn with_ogonek(base: char) -> Option<char> {
    match base {
        'A' => Some('\u{104}'),
        'E' => Some('\u{118}'),
        'I' => Some('\u{12E}'),
        'O' => Some('\u{1EA}'),
        'U' => Some('\u{172}'),
        'a' => Some('\u{105}'),
        'e' => Some('\u{119}'),
        'i' => Some('\u{12F}'),
        'o' => Some('\u{1EB}'),
        'u' => Some('\u{173}'),
        _ => None,
    }
}

fn has_ogonek(base: char) -> (r: bool)
    ensures
        r == with_ogonek(base) is Some,
{
    match base {
        'A' | 'E' | 'I' | 'O' | 'U' | 'a' | 'e' | 'i' | 'o' | 'u' => true,
        _ => false,
    }
}

/// The composed form of a character with a circumflex below, if it has one.
pub open spec fn with_circumflex_below(base: char) -> Option<char> {
    match base {
        'D' => Some('\u{1E12}'),
        'E' => Some('\u{1E18}'),
        'L' => Some('\u{1E3C}'),
        'N' => Some('\u{1E4A}'),
        'T' => Some('\u{1E70}'),
        'U' => Some('\u{1E76}'),
        'd' => Some('\u{1E13}'),
        'e' => Some('\u{1E19}'),
        'l' => Some('\u{1E3D}'),
        'n' => Some('\u{1E4B}'),
        't' => Some('\u{1E71}'),
        'u' => Some('\u{1E77}'),
        _ => None,
    }
}

fn has_circumflex_below(base: char) -> (r: bool)
    ensures
        r == with_circumflex_below(base) is Some,
{
    match base {
        'D' | 'E' | 'L' | 'N' | 'T' | 'U' | 'd' | 'e' | 'l' | 'n' | 't' | 'u' => true,
        _ => false,
    }
}

/// The composed form of a character with a breve below, if it has one.
pub open spec fn with_breve_below(base: char) -> Option<char> {
    match base {
        'H' => Some('\u{1E2A}'),
        'h' => Some('\u{1E2B}'),
        _ => None,
    }
}

fn has_breve_below(base: char) -> (r: bool)
    ensures
        r == with_breve_below(base) is Some,
{
    match base {
        'H' | 'h' => true,
        _ => false,
    }
}

/// The composed form of a character with a tilde below, if it has one.
pub open spec fn with_tilde_below(base: char) -> Option<char> {
    match base {
        'E' => Some('\u{1E1A}'),
        'I' => Some('\u{1E2C}'),
        'U' => Some('\u{1E74}'),
        'e' => Some('\u{1E1B}'),
        'i' => Some('\u{1E2D}'),
        'u' => Some('\u{1E75}'),
        _ => None,
    }
}

fn has_tilde_below(base: char) -> (r: bool)
    ensures
        r == with_tilde_below(base) is Some,
{
    match base {
        'E' | 'I' | 'U' | 'e' | 'i' | 'u' => true,
        _ => false,
    }
}

/// The composed form of a character with a macron below, if it has one.
pub open spec fn with_macron_below(base: char) -> Option<char> {
    match base {
        'B' => Some('\u{1E06}'),
        'D' => Some('\u{1E0E}'),
        'K' => Some('\u{1E34}'),
        'L' => Some('\u{1E3A}'),
        'N' => Some('\u{1E48}'),
        'R' => Some('\u{1E5E}'),
        'T' => Some('\u{1E6E}'),
        'Z' => Some('\u{1E94}'),
        'b' => Some('\u{1E07}'),
        'd' => Some('\u{1E0F}'),
        'h' => Some('\u{1E96}'),
        'k' => Some('\u{1E35}'),
        'l' => Some('\u{1E3B}'),
        'n' => Some('\u{1E49}'),
        'r' => Some('\u{1E5F}'),
        't' => Some('\u{1E6F}'),
        'z' => Some('\u{1E95}'),
        _ => None,
    }
}

fn has_macron_below(base: char) -> (r: bool)
    ensures
        r == with_macron_below(base) is Some,
{
    match base {
        'B' | 'D' | 'K' | 'L' | 'N' | 'R' | 'T' | 'Z' | 'b' | 'd' | 'h' | 'k' | 'l' | 'n' | 'r'
        | 't' | 'z' => true,
        _ => false,
    }
}

/// The composed form of a character with a solidus, if it has one.
pub open spec fn with_solidus(base: char) -> Option<char> {
    match base {
        '<' => Some('\u{226E}'),
        '=' => Some('\u{2260}'),
        '>' => Some('\u{226F}'),
        _ => None,
    }
}

fn has_solidus(base: char) -> (r: bool)
    ensures
        r == with_solidus(base) is Some,
{
    match base {
        '<' | '=' | '>' => true,
        _ => false,
    }
}

/// The composed form of an ASCII character with a mark, if it has one. Three marks
/// are other ways to write a mark, the last of them with a second mark.
pub open spec fn composed(base: char, mark: char) -> Option<char> {
    match mark {
        '\u{300}' | '\u{340}' => with_grave(base),
        '\u{301}' | '\u{341}' => with_acute(base),
        '\u{302}' => with_circumflex(base),
        '\u{303}' => with_tilde(base),
        '\u{304}' => with_macron(base),
        '\u{306}' => with_breve(base),
        '\u{307}' => with_dot_above(base),
        '\u{308}' | '\u{344}' => with_diaeresis(base),
        '\u{309}' => with_hook_above(base),
        '\u{30A}' => with_ring_above(base),
        '\u{30B}' => with_double_acute(base),
        '\u{30C}' => with_caron(base),
        '\u{30F}' => with_double_grave(base),
        '\u{311}' => with_inverted_breve(base),
        '\u{31B}' => with_horn(base),
        '\u{323}' => with_dot_below(base),
        '\u{324}' => with_diaeresis_below(base),
        '\u{325}' => with_ring_below(base),
        '\u{326}' => with_comma_below(base),
        '\u{327}' => with_cedilla(base),
        '\u{328}' => with_ogonek(base),
        '\u{32D}' => with_circumflex_below(base),
        '\u{32E}' => with_breve_below(base),
        '\u{330}' => with_tilde_below(base),
        '\u{331}' => with_macron_below(base),
        '\u{338}' => with_solidus(base),
        _ => None,
    }
}

/// Tells whether an ASCII character and a mark have a composed form.
pub fn composes(base: char, mark: char) -> (r: bool)
    ensures
        r == composed(base, mark) is Some,
{
    match mark {
        '\u{300}' | '\u{340}' => has_grave(base),
        '\u{301}' | '\u{341}' => has_acute(base),
        '\u{302}' => has_circumflex(base),
        '\u{303}' => has_tilde(base),
        '\u{304}' => has_macron(base),
        '\u{306}' => has_breve(base),
        '\u{307}' => has_dot_above(base),
        '\u{308}' | '\u{344}' => has_diaeresis(base),
        '\u{309}' => has_hook_above(base),
        '\u{30A}' => has_ring_above(base),
        '\u{30B}' => has_double_acute(base),
        '\u{30C}' => has_caron(base),
        '\u{30F}' => has_double_grave(base),
        '\u{311}' => has_inverted_breve(base),
        '\u{31B}' => has_horn(base),
        '\u{323}' => has_dot_below(base),
        '\u{324}' => has_diaeresis_below(base),
        '\u{325}' => has_ring_below(base),
        '\u{326}' => has_comma_below(base),
        '\u{327}' => has_cedilla(base),
        '\u{328}' => has_ogonek(base),
        '\u{32D}' => has_circumflex_below(base),
        '\u{32E}' => has_breve_below(base),
        '\u{330}' => has_tilde_below(base),
        '\u{331}' => has_macron_below(base),
        '\u{338}' => has_solidus(base),
        _ => false,
    }
}

/// Only marks have a class of their own, and none of them is in ASCII.
pub proof fn lemma_marks_above_ascii(c: char)
    requires
        class_of(c) != MarkClass::Starter,
    ensures
        c as u32 > 0x7F,
{
}

/// Characters of the blocks with composed letters are no marks.
proof fn lemma_letters_start(c: char)
    requires
        (c as u32) < 0x300 || 0x1E00 <= c as u32 <= 0x1EFF || 0x2200 <= c as u32 <= 0x22FF,
    ensures
        class_of(c) == MarkClass::Starter,
{
}

/// Where composed forms stand.
pub open spec fn letter_block(c: char) -> bool {
    0xC0 <= c as u32 <= 0x233 || 0x1E00 <= c as u32 <= 0x1EFF || 0x2200 <= c as u32 <= 0x22FF
}

proof fn lemma_with_grave(base: char)
    ensures
        with_grave(base) matches Some(whole) ==> base as u32 <= 0x7F && letter_block(whole),
{
}

proof fn lemma_with_acute(base: char)
    ensures
        with_acute(base) matches Some(whole) ==> base as u32 <= 0x7F && letter_block(whole),
{
}

proof fn lemma_with_circumflex(base: char)
    ensures
        with_circumflex(base) matches Some(whole) ==> base as u32 <= 0x7F && letter_block(whole),
{
}

proof fn lemma_with_tilde(base: char)
    ensures
        with_tilde(base) matches Some(whole) ==> base as u32 <= 0x7F && letter_block(whole),
{
}

proof fn lemma_with_macron(base: char)
    ensures
        with_macron(base) matches Some(whole) ==> base as u32 <= 0x7F && letter_block(whole),
{
}

proof fn lemma_with_breve(base: char)
    ensures
        with_breve(base) matches Some(whole) ==> base as u32 <= 0x7F && letter_block(whole),
{
}

proof fn lemma_with_dot_above(base: char)
    ensures
        with_dot_above(base) matches Some(whole) ==> base as u32 <= 0x7F && letter_block(whole),
{
}

proof fn lemma_with_diaeresis(base: char)
    ensures
        with_diaeresis(base) matches Some(whole) ==> base as u32 <= 0x7F && letter_block(whole),
{
}

proof fn lemma_with_hook_above(base: char)
    ensures
        with_hook_above(base) matches Some(whole) ==> base as u32 <= 0x7F && letter_block(whole),
{
}

proof fn lemma_with_ring_above(base: char)
    ensures
        with_ring_above(base) matches Some(whole) ==> base as u32 <= 0x7F && letter_block(whole),
{
}

proof fn lemma_with_double_acute(base: char)
    ensures
        with_double_acute(base) matches Some(whole) ==> base as u32 <= 0x7F && letter_block(whole),
{
}

proof fn lemma_with_caron(base: char)
    ensures
        with_caron(base) matches Some(whole) ==> base as u32 <= 0x7F && letter_block(whole),
{
}

proof fn lemma_with_double_grave(base: char)
    ensures
        with_double_grave(base) matches Some(whole) ==> base as u32 <= 0x7F && letter_block(whole),
{
}

proof fn lemma_with_inverted_breve(base: char)
    ensures
        with_inverted_breve(base) matches Some(whole) ==> base as u32 <= 0x7F && letter_block(whole),
{
}

proof fn lemma_with_horn(base: char)
    ensures
        with_horn(base) matches Some(whole) ==> base as u32 <= 0x7F && letter_block(whole),
{
}

proof fn lemma_with_dot_below(base: char)
    ensures
        with_dot_below(base) matches Some(whole) ==> base as u32 <= 0x7F && letter_block(whole),
{
}

proof fn lemma_with_diaeresis_below(base: char)
    ensures
        with_diaeresis_below(base) matches Some(whole) ==> base as u32 <= 0x7F && letter_block(whole),
{
}

proof fn lemma_with_ring_below(base: char)
    ensures
        with_ring_below(base) matches Some(whole) ==> base as u32 <= 0x7F && letter_block(whole),
{
}

proof fn lemma_with_comma_below(base: char)
    ensures
        with_comma_below(base) matches Some(whole) ==> base as u32 <= 0x7F && letter_block(whole),
{
}

proof fn lemma_with_cedilla(base: char)
    ensures
        with_cedilla(base) matches Some(whole) ==> base as u32 <= 0x7F && letter_block(whole),
{
}

proof fn lemma_with_ogonek(base: char)
    ensures
        with_ogonek(base) matches Some(whole) ==> base as u32 <= 0x7F && letter_block(whole),
{
}

proof fn lemma_with_circumflex_below(base: char)
    ensures
        with_circumflex_below(base) matches Some(whole) ==> base as u32 <= 0x7F && letter_block(whole),
{
}

proof fn lemma_with_breve_below(base: char)
    ensures
        with_breve_below(base) matches Some(whole) ==> base as u32 <= 0x7F && letter_block(whole),
{
}

proof fn lemma_with_tilde_below(base: char)
    ensures
        with_tilde_below(base) matches Some(whole) ==> base as u32 <= 0x7F && letter_block(whole),
{
}

proof fn lemma_with_macron_below(base: char)
    ensures
        with_macron_below(base) matches Some(whole) ==> base as u32 <= 0x7F && letter_block(whole),
{
}

proof fn lemma_with_solidus(base: char)
    ensures
        with_solidus(base) matches Some(whole) ==> base as u32 <= 0x7F && letter_block(whole),
{
}

/// What composes is an ASCII character and a mark, and what comes out is neither.
pub proof fn lemma_composed(base: char, mark: char)
    ensures
        composed(base, mark) matches Some(whole) ==> {
            &&& base as u32 <= 0x7F
            &&& class_of(mark) != MarkClass::Starter
            &&& whole as u32 > 0x7F
            &&& class_of(whole) == MarkClass::Starter
        },
{
    lemma_with_grave(base);
    lemma_with_acute(base);
    lemma_with_circumflex(base);
    lemma_with_tilde(base);
    lemma_with_macron(base);
    lemma_with_breve(base);
    lemma_with_dot_above(base);
    lemma_with_diaeresis(base);
    lemma_with_hook_above(base);
    lemma_with_ring_above(base);
    lemma_with_double_acute(base);
    lemma_with_caron(base);
    lemma_with_double_grave(base);
    lemma_with_inverted_breve(base);
    lemma_with_horn(base);
    lemma_with_dot_below(base);
    lemma_with_diaeresis_below(base);
    lemma_with_ring_below(base);
    lemma_with_comma_below(base);
    lemma_with_cedilla(base);
    lemma_with_ogonek(base);
    lemma_with_circumflex_below(base);
    lemma_with_breve_below(base);
    lemma_with_tilde_below(base);
    lemma_with_macron_below(base);
    lemma_with_solidus(base);
    if let Some(whole) = composed(base, mark) {
        lemma_letters_start(whole);
    }
}

/// A mark of one of the other classes composes with nothing.
pub proof fn lemma_no_other_composes(base: char, mark: char)
    ensures
        composed(base, mark) is Some ==> class_of(mark) != MarkClass::Other,
{
}

/// A dot composes with nothing.
pub proof fn lemma_dot_composes_with_nothing(mark: char)
    ensures
        composed('.', mark) is None,
{
}

/// Whether the first character of a text composes with the character at place
/// `i`. Between the two stand only marks, and none of the same class.
pub open spec fn composes_at(s: Seq<char>, i: int) -> bool {
    &&& 1 <= i < s.len()
    &&& composed(s[0], s[i]) is Some
    &&& forall|j: int|
        1 <= j < i ==> class_of(#[trigger] s[j]) != MarkClass::Starter && class_of(s[j])
            != class_of(s[i])
}

/// Whether the first character of a text composes with one of the marks behind it,
/// so that the canonical composition of the text begins with another character.
pub open spec fn composes_behind(s: Seq<char>) -> bool {
    exists|i: int| composes_at(s, i)
}

/// Whether a character of `chars[from..to]` has the given class.
fn holds_class(chars: &Vec<char>, from: usize, to: usize, class: MarkClass) -> (r: bool)
    requires
        from <= to <= chars@.len(),
    ensures
        r == exists|j: int| from <= j < to && class_of(#[trigger] chars@[j]) == class,
{
    let mut j: usize = from;
    while j < to
        invariant
            from <= j <= to <= chars@.len(),
            forall|k: int| from <= k < j ==> class_of(#[trigger] chars@[k]) != class,
        decreases to - j,
    {
        if mark_class(chars[j]) == class {
            return true;
        }
        j += 1;
    }
    false
}

/// Tells whether the character at `at` composes with one of the marks behind it, up
/// to `to`.
pub fn composes_in(chars: &Vec<char>, at: usize, to: usize) -> (r: bool)
    requires
        at < to <= chars@.len(),
    ensures
        r == composes_behind(chars@.subrange(at as int, to as int)),
{
    let ghost s = chars@.subrange(at as int, to as int);
    let base: char = chars[at];
    let mut i: usize = at + 1;
    while i < to
        invariant
            at < i <= to <= chars@.len(),
            s == chars@.subrange(at as int, to as int),
            base == s[0],
            forall|j: int| at < j < i ==> class_of(#[trigger] chars@[j]) != MarkClass::Starter,
            forall|k: int| 1 <= k < i - at ==> !#[trigger] composes_at(s, k),
        decreases to - i,
    {
        let c: char = chars[i];
        let class: MarkClass = mark_class(c);
        assert(c == s[i - at]);
        if composes(base, c) && !holds_class(chars, at + 1, i, class) {
            assert(composes_at(s, i - at)) by {
                assert forall|j: int| 1 <= j < i - at implies class_of(#[trigger] s[j])
                    != MarkClass::Starter && class_of(s[j]) != class_of(s[i - at]) by {
                    assert(s[j] == chars@[at + j]);
                }
            }
            return true;
        }
        assert(!composes_at(s, i - at)) by {
            if composes_at(s, i - at) {
                assert forall|j: int| at + 1 <= j < i implies class_of(#[trigger] chars@[j])
                    != class by {
                    assert(s[j - at] == chars@[j]);
                }
            }
        }
        if class == MarkClass::Starter {
            assert forall|k: int| !#[trigger] composes_at(s, k) by {
                if k > i - at && composes_at(s, k) {
                    assert(class_of(s[i - at]) != MarkClass::Starter);
                }
            }
            return false;
        }
        i += 1;
    }
    false
}

} // verus!
