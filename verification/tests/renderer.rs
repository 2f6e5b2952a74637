use cdg_player::cdg::{AnyPacket, CdegInstruction, CdegPacket, Instruction, Packet};
use cdg_player::renderer::{
    channels, CdegColor, CdegScreen, DisplayMode, Screen, WriteMode, HEIGHT, PIXEL_COUNT, WIDTH,
};

fn data(bytes: &[u8]) -> [u8; 16] {
    let mut d = [0u8; 16];
    d[..bytes.len()].copy_from_slice(bytes);
    d
}

fn item1(instruction: Instruction, bytes: &[u8]) -> Packet {
    Packet { instruction, data: data(bytes) }
}

fn cdg(instruction: Instruction, bytes: &[u8]) -> AnyPacket {
    AnyPacket::Item1(item1(instruction, bytes))
}

fn cdeg(instruction: CdegInstruction, bytes: &[u8]) -> AnyPacket {
    AnyPacket::Item2(CdegPacket { instruction, data: data(bytes) })
}

fn frame(screen: &CdegScreen) -> Vec<u32> {
    let mut out = vec![0u32; PIXEL_COUNT];
    screen.render(&mut out);
    out
}

// Tile at row 1, column 1, with the given colors and the upper left pixel set.
fn tile(c0: u8, c1: u8) -> Vec<u8> {
    vec![c0, c1, 1, 1, 0x20, 0, 0, 0, 0, 0, 0, 0, 0, 0, 0, 1]
}

#[test]
fn screen_size() {
    assert_eq!((WIDTH, HEIGHT, PIXEL_COUNT), (300, 216, 64800));
}

#[test]
fn color_table_spreads_four_bits() {
    let mut s = Screen::new();
    // Red 15, green 5, blue 1.
    s.apply(&item1(Instruction::LoadColorTableLow, &[0x3D, 0x11]));
    assert_eq!(s.palette[0], 0x00FF5511);
    s.apply(&item1(Instruction::LoadColorTableHigh, &[0, 0, 0x04, 0x2F]));
    assert_eq!(s.palette[9], 0x001122FF);
    assert_eq!(s.palette[1], 0);
}

#[test]
fn presets_fill_and_set_the_border() {
    let mut s = Screen::new();
    s.h_offset = 3;
    s.apply(&item1(Instruction::MemoryPreset, &[0x35]));
    assert!(s.pixels.iter().all(|&p| p == 5));
    assert_eq!(s.h_offset, 0);
    s.apply(&item1(Instruction::BorderPreset, &[0x19]));
    assert_eq!(s.border_color, 9);
    assert!(s.pixels.iter().all(|&p| p == 5));
}

#[test]
fn tile_paints_six_by_twelve() {
    let mut s = Screen::new();
    s.apply(&item1(Instruction::TileBlock, &tile(2, 7)));
    assert_eq!(s.pixels[12 * WIDTH + 6], 7);
    assert_eq!(s.pixels[12 * WIDTH + 7], 2);
    assert_eq!(s.pixels[23 * WIDTH + 11], 7);
    assert_eq!(s.pixels[12 * WIDTH + 5], 0);
    assert_eq!(s.pixels[24 * WIDTH + 6], 0);
    assert_eq!(s.pixels.iter().filter(|&&p| p == 7).count(), 2);
    assert_eq!(s.pixels.iter().filter(|&&p| p == 2).count(), 70);
}

#[test]
fn tile_outside_is_ignored() {
    let mut s = Screen::new();
    s.apply(&item1(Instruction::TileBlock, &[1, 1, 18, 0]));
    s.apply(&item1(Instruction::TileBlock, &[1, 1, 0, 50]));
    assert!(s.pixels.iter().all(|&p| p == 0));
    s.apply(&item1(Instruction::TileBlock, &[1, 1, 17, 49]));
    assert_eq!(s.pixels[PIXEL_COUNT - 1], 1);
}

#[test]
fn xor_tile_twice_is_nothing() {
    let mut s = Screen::new();
    s.apply(&item1(Instruction::MemoryPreset, &[6]));
    s.apply(&item1(Instruction::TileBlockXor, &tile(3, 12)));
    assert_eq!(s.pixels[12 * WIDTH + 6], 6 ^ 12);
    assert_eq!(s.pixels[12 * WIDTH + 7], 6 ^ 3);
    s.apply(&item1(Instruction::TileBlockXor, &tile(3, 12)));
    assert!(s.pixels.iter().all(|&p| p == 6));
}

#[test]
fn scroll_preset_fills_what_is_left_free() {
    let mut s = Screen::new();
    s.apply(&item1(Instruction::TileBlock, &tile(2, 2)));
    // Six pixels to the right, twelve down, offsets 2 and 3, filled with color 4.
    s.apply(&item1(Instruction::ScrollPreset, &[4, 0x12, 0x13]));
    assert_eq!((s.h_offset, s.v_offset), (2, 3));
    assert_eq!(s.pixels[24 * WIDTH + 12], 2);
    assert_eq!(s.pixels[12 * WIDTH + 6], 0);
    assert_eq!(s.pixels[100 * WIDTH], 4);
    assert_eq!(s.pixels[100], 4);
    assert_eq!(s.pixels[100 * WIDTH + 6], 0);
}

#[test]
fn scroll_copy_there_and_back() {
    let mut s = Screen::new();
    s.apply(&item1(Instruction::TileBlock, &[2, 2, 0, 0]));
    let before: Vec<u8> = s.pixels.to_vec();
    s.apply(&item1(Instruction::ScrollCopy, &[4, 0x20, 0x20]));
    assert_eq!(s.pixels[PIXEL_COUNT - 1], 2);
    assert_ne!(s.pixels.to_vec(), before);
    s.apply(&item1(Instruction::ScrollCopy, &[4, 0x10, 0x10]));
    assert_eq!(s.pixels.to_vec(), before);
}

#[test]
fn border_hides_but_keeps_tiles() {
    let mut s = Screen::new();
    s.palette[1] = 0x111111;
    s.palette[2] = 0x222222;
    s.border_color = 2;
    s.apply(&item1(Instruction::TileBlock, &[1, 1, 0, 0]));
    let mut out = vec![9u32; PIXEL_COUNT];
    s.render(&mut out);
    assert_eq!(out[0], 0x222222);
    assert_eq!(out[11 * WIDTH + 100], 0x222222);
    assert_eq!(out[100 * WIDTH + 294], 0x222222);
    assert_eq!(out[100 * WIDTH + 100], 0);
    // The tile comes into view once it is scrolled in.
    s.apply(&item1(Instruction::ScrollCopy, &[0, 0x10, 0x10]));
    s.render(&mut out);
    assert_eq!(out[12 * WIDTH + 6], 0x111111);
    assert_eq!(out[0], 0x222222);
}

#[test]
fn offsets_shift_the_picture() {
    let mut s = Screen::new();
    s.palette[1] = 0x111111;
    s.pixels[50 * WIDTH + 60] = 1;
    s.h_offset = 2;
    s.v_offset = 3;
    let mut out = vec![0u32; PIXEL_COUNT];
    s.render(&mut out);
    assert_eq!(out[53 * WIDTH + 62], 0x111111);
    assert_eq!(out[50 * WIDTH + 60], 0);
}

#[test]
fn define_transparent_does_nothing() {
    let mut s = Screen::new();
    s.apply(&item1(Instruction::DefineTransparent, &[0x3F; 16]));
    assert!(s.pixels.iter().all(|&p| p == 0));
    assert_eq!(s.palette, [0; 16]);
}

#[test]
fn new_composite_screen() {
    let s = CdegScreen::new(true);
    assert_eq!(s.write_mode, WriteMode::Primary);
    assert_eq!(s.display_mode, DisplayMode::Primary);
    assert!(s.cdeg_enabled);
    assert!(s.active_channels[0] && s.active_channels[1] && !s.active_channels[2]);
}

#[test]
fn memory_control_sets_both_modes() {
    let mut s = CdegScreen::new(true);
    s.apply(&cdeg(CdegInstruction::MemoryControl, &[0b1011]));
    assert_eq!(s.write_mode, WriteMode::Both);
    assert_eq!(s.display_mode, DisplayMode::Secondary);
    s.apply(&cdeg(CdegInstruction::MemoryControl, &[0b1100]));
    assert_eq!(s.write_mode, WriteMode::NoWrite);
    assert_eq!(s.display_mode, DisplayMode::Mix);
    // 256 colors go only with no writes, or with writes to both planes.
    s.apply(&cdeg(CdegInstruction::MemoryControl, &[0b0001]));
    s.apply(&cdeg(CdegInstruction::MemoryControl, &[0b0010]));
    assert_eq!(s.display_mode, DisplayMode::Mix);
    s.apply(&cdeg(CdegInstruction::MemoryControl, &[0b0011]));
    assert_eq!(s.display_mode, DisplayMode::Color256);
    assert_eq!(s.write_mode, WriteMode::Both);
}

#[test]
fn disabled_cdeg_ignores_item2() {
    let mut s = CdegScreen::new(false);
    s.apply(&cdeg(CdegInstruction::MemoryControl, &[0b0011]));
    assert_eq!(s.display_mode, DisplayMode::Primary);
    s.apply(&cdg(Instruction::LoadColorTableLow, &[0x3F, 0x3F]));
    s.apply(&cdg(Instruction::MemoryPreset, &[1]));
    let mut plain = Screen::new();
    plain.apply(&item1(Instruction::LoadColorTableLow, &[0x3F, 0x3F]));
    plain.apply(&item1(Instruction::MemoryPreset, &[1]));
    let mut out = vec![7u32; PIXEL_COUNT];
    plain.render(&mut out);
    assert_eq!(frame(&s), out);
}

#[test]
fn inactive_channel_paints_nothing() {
    let mut s = CdegScreen::new(true);
    let mut t = tile(2, 7);
    t[0] |= 0x10;
    s.apply(&cdg(Instruction::TileBlock, &t));
    assert!(s.primary.pixels.iter().all(|&p| p == 0));
    s.active_channels[4] = true;
    s.apply(&cdg(Instruction::TileBlock, &t));
    assert_eq!(s.primary.pixels[12 * WIDTH + 6], 7);
}

#[test]
fn write_modes_pick_the_plane() {
    let mut s = CdegScreen::new(true);
    s.write_mode = WriteMode::Secondary;
    s.apply(&cdg(Instruction::MemoryPreset, &[3]));
    assert_eq!((s.primary.pixels[0], s.secondary.pixels[0]), (0, 3));
    s.write_mode = WriteMode::Both;
    s.apply(&cdg(Instruction::MemoryPreset, &[4]));
    assert_eq!((s.primary.pixels[0], s.secondary.pixels[0]), (4, 4));
    s.write_mode = WriteMode::NoWrite;
    s.apply(&cdg(Instruction::MemoryPreset, &[5]));
    assert_eq!((s.primary.pixels[0], s.secondary.pixels[0]), (4, 4));
}

#[test]
fn presets_clear_the_second_plane_in_256_colors() {
    let mut s = CdegScreen::new(true);
    s.apply(&cdeg(CdegInstruction::MemoryControl, &[0b0011]));
    s.apply(&cdeg(CdegInstruction::SetFont, &tile(2, 7)));
    assert_eq!(s.secondary.pixels[12 * WIDTH + 6], 7);
    s.secondary.border_color = 6;
    s.apply(&cdg(Instruction::MemoryPreset, &[9]));
    s.apply(&cdg(Instruction::BorderPreset, &[8]));
    assert_eq!((s.primary.pixels[0], s.secondary.pixels[12 * WIDTH + 6]), (9, 0));
    assert_eq!((s.primary.border_color, s.secondary.border_color), (8, 0));
    // Scrolling and color tables are left alone.
    s.apply(&cdg(Instruction::LoadColorTableLow, &[0x3F, 0x3F]));
    assert_eq!(s.primary.palette[0], 0);
}

#[test]
fn fonts_need_256_colors() {
    let mut s = CdegScreen::new(true);
    s.apply(&cdeg(CdegInstruction::SetFont, &tile(2, 7)));
    assert!(s.secondary.pixels.iter().all(|&p| p == 0));
    s.display_mode = DisplayMode::Color256;
    s.apply(&cdeg(CdegInstruction::SetFont, &tile(2, 7)));
    s.apply(&cdeg(CdegInstruction::XorFont, &tile(1, 1)));
    assert_eq!(s.secondary.pixels[12 * WIDTH + 6], 7 ^ 1);
}

#[test]
fn color_table_of_256_entries() {
    let mut s = CdegScreen::new(true);
    s.display_mode = DisplayMode::Color256;
    // High bits: red 15, green 5, blue 1; low bits: red 1, green 2, blue 3.
    s.apply(&cdeg(CdegInstruction::LoadClut256High { start: 16 }, &[0x3D, 0x11]));
    s.apply(&cdeg(CdegInstruction::LoadClut256Low { start: 16 }, &[0b01_10_11]));
    let c = s.clut256[16];
    assert_eq!((c.r, c.g, c.b), (61, 22, 7));
    assert_eq!(c.to_rgb32(), 0x00F4581C);
    // Primary index 0, secondary index 1.
    s.secondary.pixels[100 * WIDTH + 100] = 1;
    assert_eq!(frame(&s)[100 * WIDTH + 100], 0x00F4581C);
    assert_eq!(frame(&s)[100 * WIDTH + 101], 0);
}

#[test]
fn early_color_tables_drive_the_palettes() {
    let mut s = CdegScreen::new(true);
    s.write_mode = WriteMode::Both;
    s.apply(&cdeg(CdegInstruction::LoadClut256High { start: 8 }, &[0x3F, 0x3F]));
    assert_eq!((s.primary.palette[8], s.secondary.palette[8]), (0xFFFFFF, 0xFFFFFF));
    s.apply(&cdeg(CdegInstruction::LoadClut256High { start: 16 }, &[0x3F, 0x3F]));
    assert_eq!(s.clut256[16].r, 0);
    s.write_mode = WriteMode::Secondary;
    s.apply(&cdeg(CdegInstruction::LoadClut256High { start: 0 }, &[0x3F, 0x3F]));
    assert_eq!((s.primary.palette[0], s.secondary.palette[0]), (0, 0xFFFFFF));
}

#[test]
fn mixing_adds_and_saturates() {
    let mut s = CdegScreen::new(true);
    s.display_mode = DisplayMode::Mix;
    s.primary.palette[0] = 0x00FF1122;
    s.secondary.palette[0] = 0x00112200;
    // Red 15 + 1, green 1 + 2, blue 2 + 0, times 16.
    assert_eq!(frame(&s)[100 * WIDTH + 100], 0x00FF3020);
    assert_eq!(frame(&s)[0], 0x00FF3020);
}

#[test]
fn secondary_display() {
    let mut s = CdegScreen::new(true);
    s.display_mode = DisplayMode::Secondary;
    s.secondary.palette[0] = 0x00ABCDEF;
    assert!(frame(&s).iter().all(|&p| p == 0x00ABCDEF));
}

#[test]
fn color_channels() {
    assert_eq!(channels(0x00123456), (0x12, 0x34, 0x56));
    assert_eq!(CdegColor { r: 63, g: 1, b: 32 }.to_rgb32(), 0x00FC0480);
}

#[test]
fn offsets_stay_within_a_tile() {
    for b in 0..64u8 {
        let mut s = Screen::new();
        s.apply(&item1(Instruction::ScrollPreset, &[0, b, b]));
        assert_eq!(s.h_offset, ((b & 7) as i8).min(5));
        assert_eq!(s.v_offset, ((b & 15) as i8).min(11));
    }
}

#[test]
fn scroll_copy_along_both_axes_and_back() {
    let mut s = Screen::new();
    for (i, p) in s.pixels.iter_mut().enumerate() {
        *p = (i * 7 % 16) as u8;
    }
    s.palette[3] = 0x123456;
    s.border_color = 4;
    let before: Vec<u8> = s.pixels.to_vec();
    s.apply(&item1(Instruction::ScrollCopy, &[0, 0x10, 0x20]));
    assert_ne!(s.pixels.to_vec(), before);
    s.apply(&item1(Instruction::ScrollCopy, &[0, 0x20, 0x10]));
    assert_eq!(s.pixels.to_vec(), before);
    assert_eq!((s.h_offset, s.v_offset), (0, 0));
    assert_eq!((s.palette[3], s.border_color), (0x123456, 4));
}

#[test]
fn scrolling_across_and_down_in_either_order() {
    let scrolled = |first: &[u8], second: &[u8]| {
        let mut s = Screen::new();
        for (i, p) in s.pixels.iter_mut().enumerate() {
            *p = (i * 7 % 16) as u8;
        }
        s.apply(&item1(Instruction::ScrollPreset, first));
        s.apply(&item1(Instruction::ScrollPreset, second));
        s.pixels.to_vec()
    };
    assert_eq!(scrolled(&[5, 0x10, 0], &[5, 0, 0x20]), scrolled(&[5, 0, 0x20], &[5, 0x10, 0]));
}

#[test]
fn clut_loads_in_either_order() {
    let high = cdeg(CdegInstruction::LoadClut256High { start: 24 }, &[0x3D, 0x11, 0x2A, 0x15]);
    let low = cdeg(CdegInstruction::LoadClut256Low { start: 16 }, &[0x1B; 16]);
    let loaded = |first: &AnyPacket, second: &AnyPacket| {
        let mut s = CdegScreen::new(true);
        s.display_mode = DisplayMode::Color256;
        s.apply(first);
        s.apply(second);
        s.clut256.iter().map(|c| (c.r, c.g, c.b)).collect::<Vec<_>>()
    };
    assert_eq!(loaded(&high, &low), loaded(&low, &high));
    assert_eq!(loaded(&high, &low)[24], (61, 22, 7));
    assert_eq!(loaded(&high, &low)[16], (1, 2, 3));
}

#[test]
fn mixed_planes_in_either_order() {
    let mut s = CdegScreen::new(true);
    s.display_mode = DisplayMode::Mix;
    for i in 0..16u32 {
        s.primary.palette[i as usize] = i * 17;
        s.secondary.palette[i as usize] = (15 - i) * 17 << 16 | i * 17;
    }
    for (i, p) in s.primary.pixels.iter_mut().enumerate() {
        *p = (i * 7 % 16) as u8;
    }
    for (i, p) in s.secondary.pixels.iter_mut().enumerate() {
        *p = (i * 5 % 16) as u8;
    }
    let before = frame(&s);
    for p in &before {
        let (r, g, b) = channels(*p);
        for c in [r, g, b] {
            assert!(c == 255 || c % 16 == 0);
        }
        assert!(*p < 0x1000000);
    }
    std::mem::swap(&mut s.primary, &mut s.secondary);
    assert_eq!(frame(&s), before);
}
