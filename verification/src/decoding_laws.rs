//! What the bytes of a `.cdg` file mean: which packets a scan finds in them, and
//! what each packet does to the picture, byte by byte and pixel by pixel. A plane is
//! 300 pixels wide and 216 high, and its pixels stand in row order.

use crate::cdg::{
    cdeg_instruction_of, channel_used, channels_of, instruction_of, lemma_scan_len, paints_channel,
    raw_packet, scan, scan_stops, slot_at, slots_view, uses_cdeg, AnyPacket, CdegInstruction,
    Instruction, PacketView,
};
use crate::renderer::{
    lemma_position, rgb6_of, CdegScreen, Composite, DisplayMode, Plane, Rgb, Screen, WriteMode,
};
use crate::renderer_laws::lemma_clut_low_bits;
use vstd::arithmetic::power2::pow2;
use vstd::prelude::*;

verus! {

// ── Packets ─────────────────────────────────────────────────────────────────

/// The low six bits of a byte select an item 1 instruction, each by its own number.
pub proof fn lemma_item1_codes(b: u8)
    ensures
        instruction_of(b) == Some(Instruction::MemoryPreset) <==> b % 64 == 1,
        instruction_of(b) == Some(Instruction::BorderPreset) <==> b % 64 == 2,
        instruction_of(b) == Some(Instruction::TileBlock) <==> b % 64 == 6,
        instruction_of(b) == Some(Instruction::ScrollPreset) <==> b % 64 == 20,
        instruction_of(b) == Some(Instruction::ScrollCopy) <==> b % 64 == 24,
        instruction_of(b) == Some(Instruction::DefineTransparent) <==> b % 64 == 28,
        instruction_of(b) == Some(Instruction::LoadColorTableLow) <==> b % 64 == 30,
        instruction_of(b) == Some(Instruction::LoadColorTableHigh) <==> b % 64 == 31,
        instruction_of(b) == Some(Instruction::TileBlockXor) <==> b % 64 == 38,
{
}

/// The low six bits of a byte select an item 2 instruction. The CLUT loads go up in
/// steps of as many entries as they load, so that each entry is loaded by one high
/// and one low load.
pub proof fn lemma_item2_codes(b: u8, start: u8)
    ensures
        cdeg_instruction_of(b) == Some(CdegInstruction::MemoryControl) <==> b % 64 == 3,
        cdeg_instruction_of(b) == Some(CdegInstruction::SetFont) <==> b % 64 == 6,
        cdeg_instruction_of(b) == Some(CdegInstruction::XorFont) <==> b % 64 == 14,
        cdeg_instruction_of(b) == Some(CdegInstruction::LoadClut256High { start }) <==> b % 64 < 48
            && (b % 64) * 8 == 128 + start,
        cdeg_instruction_of(b) == Some(CdegInstruction::LoadClut256Low { start }) <==> (b % 64) * 16
            == 768 + start,
{
}

/// The bytes of packet `k`: byte 0 is its command, byte 1 its instruction, and bytes
/// 4 to 19 its data, of each the low six bits. Command 9 is item 1, command 10 item
/// 2, and any other holds nothing.
pub proof fn lemma_packet_bytes(data: Seq<u8>, k: int, i: int)
    requires
        0 <= k,
        24 * (k + 1) <= data.len(),
        0 <= i < 16,
    ensures
        ({
            let command = data[24 * k] % 64;
            let item1 = instruction_of(data[24 * k + 1]);
            let item2 = cdeg_instruction_of(data[24 * k + 1]);
            match slot_at(data, k) {
                Some(PacketView::Item1(instruction, bytes)) => {
                    &&& command == 9 && item1 == Some(instruction)
                    &&& bytes.len() == 16 && bytes[i] == data[24 * k + 4 + i] % 64
                },
                Some(PacketView::Item2(instruction, bytes)) => {
                    &&& command == 10 && item2 == Some(instruction)
                    &&& bytes.len() == 16 && bytes[i] == data[24 * k + 4 + i] % 64
                },
                None => {
                    &&& command == 9 ==> item1 is None
                    &&& command == 10 ==> item2 is None
                },
            }
        }),
{
    let raw = raw_packet(data, k);
    assert(raw[0] == data[24 * k]);
    assert(raw[1] == data[24 * k + 1]);
    assert(raw[4 + i] == data[24 * k + 4 + i]);
}

/// Whether packet `k` of some bytes is an item 2 packet with an undefined
/// instruction.
pub open spec fn undefined_item2(data: Seq<u8>, k: int) -> bool {
    let code = data[24 * k + 1] % 64;
    &&& data[24 * k] % 64 == 10
    &&& code != 3 && code != 6 && code != 14 && code < 16
}

/// A scan yields the whole packets from the first one on, in order and numbered, up
/// to an item 2 packet with an undefined instruction or the end of the bytes.
pub proof fn lemma_scan_in_order(data: Seq<u8>, k: int)
    requires
        0 <= k < scan(data).len(),
    ensures
        24 * (k + 1) <= data.len(),
        !undefined_item2(data, k),
        scan(data)[k].1 == slot_at(data, k),
        k <= u32::MAX ==> scan(data)[k].0 == k,
        24 * (scan(data).len() + 1) > data.len() || undefined_item2(
            data,
            scan(data).len() as int,
        ),
{
    lemma_scan_len(data, 0);
    let n = scan(data).len() as int;
    assert(!scan_stops(data, k));
    assert(raw_packet(data, k)[0] == data[24 * k]);
    assert(raw_packet(data, k)[1] == data[24 * k + 1]);
    assert(scan_stops(data, n));
    if 24 * (n + 1) <= data.len() {
        assert(raw_packet(data, n)[0] == data[24 * n]);
        assert(raw_packet(data, n)[1] == data[24 * n + 1]);
    }
}

/// A scan that yields nothing has no whole packet in front of it, or one that stops
/// it.
pub proof fn lemma_scan_empty(data: Seq<u8>)
    requires
        scan(data).len() == 0,
    ensures
        data.len() < 24 || undefined_item2(data, 0),
{
    lemma_scan_len(data, 0);
    assert(scan_stops(data, 0));
    if data.len() >= 24 {
        assert(raw_packet(data, 0)[0] == data[0]);
        assert(raw_packet(data, 0)[1] == data[1]);
    }
}

/// Whether packet `k` of some bytes is a tile packet for channel `ch`: item 1 with
/// instruction 6 or 38, or item 2 with instruction 6 or 14. The first data byte has
/// the high two bits of the channel, the second the low two, each in bits 5 and 4.
pub open spec fn tile_for_channel(data: Seq<u8>, k: int, ch: int) -> bool {
    let command = data[24 * k] % 64;
    let code = data[24 * k + 1] % 64;
    &&& command == 9 && (code == 6 || code == 38) || command == 10 && (code == 6 || code == 14)
    &&& data[24 * k + 4] % 64 / 16 == ch / 4
    &&& data[24 * k + 5] % 64 / 16 == ch % 4
}

/// A channel counts as used exactly if a whole packet is a tile packet for it. Of each of
/// the sixteen it is told in its place.
pub proof fn lemma_channel_used(data: Seq<u8>, ch: int)
    requires
        0 <= ch < 16,
    ensures
        channel_used(data, ch) <==> exists|k: int|
            0 <= k && 24 * (k + 1) <= data.len() && #[trigger] tile_for_channel(data, k, ch),
        channels_of(data).len() == 16,
        channels_of(data)[ch] <==> channel_used(data, ch),
{
    assert forall|k: int| 0 <= k && 24 * (k + 1) <= data.len() implies (#[trigger] tile_for_channel(
        data,
        k,
        ch,
    ) <==> paints_channel(#[trigger] slot_at(data, k), ch)) by {
        lemma_packet_bytes(data, k, 0);
        lemma_packet_bytes(data, k, 1);
        lemma_item1_codes(data[24 * k + 1]);
        lemma_item2_codes(data[24 * k + 1], 0);
    }
    if channel_used(data, ch) {
        let k = choose|k: int|
            0 <= k && 24 * (k + 1) <= data.len() && paints_channel(
                #[trigger] slot_at(data, k),
                ch,
            );
        assert(tile_for_channel(data, k, ch));
    }
    if exists|k: int|
        0 <= k && 24 * (k + 1) <= data.len() && #[trigger] tile_for_channel(data, k, ch) {
        let k = choose|k: int|
            0 <= k && 24 * (k + 1) <= data.len() && #[trigger] tile_for_channel(data, k, ch);
        assert(paints_channel(slot_at(data, k), ch));
    }
}

/// Whether packet `k` of some bytes is an item 2 packet with a defined instruction.
pub open spec fn defined_item2(data: Seq<u8>, k: int) -> bool {
    data[24 * k] % 64 == 10 && !undefined_item2(data, k)
}

/// A disc has CD+EG graphics exactly if a whole packet is an item 2 packet with a
/// defined instruction.
pub proof fn lemma_cdeg_used(data: Seq<u8>)
    ensures
        uses_cdeg(data) <==> exists|k: int|
            0 <= k && 24 * (k + 1) <= data.len() && #[trigger] defined_item2(data, k),
{
    assert forall|k: int| 0 <= k && 24 * (k + 1) <= data.len() implies (#[trigger] defined_item2(
        data,
        k,
    ) <==> (#[trigger] slot_at(data, k) matches Some(PacketView::Item2(..)))) by {
        lemma_packet_bytes(data, k, 0);
    }
    if uses_cdeg(data) {
        let k = choose|k: int|
            0 <= k && 24 * (k + 1) <= data.len() && #[trigger] slot_at(data, k) matches Some(
                PacketView::Item2(..),
            );
        assert(defined_item2(data, k));
    }
    if exists|k: int| 0 <= k && 24 * (k + 1) <= data.len() && #[trigger] defined_item2(data, k) {
        let k = choose|k: int|
            0 <= k && 24 * (k + 1) <= data.len() && #[trigger] defined_item2(data, k);
        assert(slot_at(data, k) matches Some(PacketView::Item2(..)));
    }
}

// ── Views ───────────────────────────────────────────────────────────────────

/// The mathematical state of a plane is what its fields hold.
pub proof fn lemma_screen_view(s: Screen)
    ensures
        s@.pixels == s.pixels@,
        s@.palette == s.palette@,
        s@.border_color == s.border_color,
        s@.h_offset == s.h_offset,
        s@.v_offset == s.v_offset,
{
}

/// The mathematical state of a CD+EG screen is what its fields hold.
pub proof fn lemma_cdeg_screen_view(s: CdegScreen, i: int)
    requires
        0 <= i < 256,
    ensures
        s@.primary == s.primary@,
        s@.secondary == s.secondary@,
        s@.write_mode == s.write_mode,
        s@.display_mode == s.display_mode,
        s@.cdeg_enabled == s.cdeg_enabled,
        s@.active_channels == s.active_channels@,
        s@.clut.len() == 256,
        s@.clut[i].r == s.clut256@[i].r,
        s@.clut[i].g == s.clut256@[i].g,
        s@.clut[i].b == s.clut256@[i].b,
{
}

/// The contents of a packet are what its fields hold.
pub proof fn lemma_packet_view(packet: AnyPacket)
    ensures
        match packet {
            AnyPacket::Item1(p) => packet@ == PacketView::Item1(p.instruction, p.data@),
            AnyPacket::Item2(p) => packet@ == PacketView::Item2(p.instruction, p.data@),
        },
{
}

/// The contents of a list of slots stand in the order of the slots, each with its number.
pub proof fn lemma_slots_view(slots: Seq<(u32, Option<AnyPacket>)>, i: int)
    requires
        0 <= i < slots.len(),
    ensures
        slots_view(slots).len() == slots.len(),
        slots_view(slots)[i].0 == slots[i].0,
        slots[i].1 is None ==> slots_view(slots)[i].1 is None,
        slots[i].1 matches Some(packet) ==> slots_view(slots)[i].1 == Some(packet@),
{
}

// ── One plane ───────────────────────────────────────────────────────────────

/// A new plane is all black: color 0 everywhere, which is black, without offsets.
pub proof fn lemma_blank_pixels(k: int, i: int)
    requires
        0 <= k < 64800,
        0 <= i < 16,
    ensures
        Plane::blank().pixels.len() == 64800,
        Plane::blank().pixels[k] == 0,
        Plane::blank().palette.len() == 16,
        Plane::blank().palette[i] == 0,
        Plane::blank().border_color == 0,
        Plane::blank().h_offset == 0,
        Plane::blank().v_offset == 0,
{
}

/// A memory preset fills every pixel with the low four bits of its first data byte,
/// and resets the offsets. Palette and border stay.
pub proof fn lemma_memory_preset(p: Plane, data: Seq<u8>, k: int)
    requires
        0 <= k < 64800,
    ensures
        ({
            let q = p.after(Instruction::MemoryPreset, data);
            &&& q.pixels.len() == 64800 && q.pixels[k] == data[0] % 16
            &&& q.h_offset == 0 && q.v_offset == 0
            &&& q.palette == p.palette && q.border_color == p.border_color
        }),
{
}

/// A border preset sets the border color to the low four bits of its first data
/// byte, and nothing else. Defining a transparent color does nothing.
pub proof fn lemma_border_preset(p: Plane, data: Seq<u8>)
    ensures
        ({
            let q = p.after(Instruction::BorderPreset, data);
            &&& q.border_color == data[0] % 16
            &&& q.pixels == p.pixels && q.palette == p.palette
            &&& q.h_offset == p.h_offset && q.v_offset == p.v_offset
        }),
        p.after(Instruction::DefineTransparent, data) == p,
{
}

/// Whether bit `n` of a byte is set.
pub open spec fn bit_set(byte: u8, n: int) -> bool {
    (byte as int / pow2(n as nat) as int) % 2 == 1
}

proof fn lemma_bit(byte: u8, n: int)
    requires
        0 <= n < 6,
    ensures
        (byte >> (n as usize)) & 1 == if bit_set(byte, n) {
            1u8
        } else {
            0u8
        },
{
    vstd::bits::lemma_u8_shr_is_div(byte, n as u8);
    let shifted: u8 = byte >> (n as usize);
    assert(shifted & 1 == shifted % 2) by (bit_vector);
    assert(shifted == byte >> (n as u8));
}

/// A tile has its place from the third and fourth data bytes: 12 rows to a tile row
/// and 6 columns to a tile column. In it, the pixel in column `col` and row `row` is
/// in the second color exactly if bit `5 - col` of data byte `4 + row` is set, and in
/// the first color otherwise; the first two data bytes are the colors. A normal tile
/// replaces the pixel, an XOR tile is combined with it. Every other pixel is
/// unchanged, and all pixels are if the tile does not fit the plane.
pub proof fn lemma_tile_pixels(p: Plane, data: Seq<u8>, x: int, y: int)
    requires
        p.pixels.len() == 64800,
        data.len() == 16,
        0 <= x < 300,
        0 <= y < 216,
    ensures
        ({
            let left = 6 * (data[3] % 64);
            let top = 12 * (data[2] % 32);
            let fits = left + 6 <= 300 && top + 12 <= 216;
            let col = x - left;
            let row = y - top;
            let hit = fits && 0 <= col < 6 && 0 <= row < 12;
            let color: u8 = if bit_set(data[4 + row], 5 - col) {
                data[1] % 16
            } else {
                data[0] % 16
            };
            let before = p.pixels[300 * y + x];
            let normal = p.after(Instruction::TileBlock, data);
            let xor = p.after(Instruction::TileBlockXor, data);
            &&& normal.pixels.len() == 64800 && xor.pixels.len() == 64800
            &&& normal.pixels[300 * y + x] == if hit {
                color
            } else {
                before
            }
            &&& xor.pixels[300 * y + x] == if hit {
                before ^ color
            } else {
                before
            }
        }),
{
    let k = 300 * y + x;
    assert(k % 300 == x && k / 300 == y);
    let col = x - 6 * (data[3] % 64);
    let row = y - 12 * (data[2] % 32);
    if 0 <= col < 6 && 0 <= row < 12 {
        lemma_bit(data[4 + row], 5 - col);
    }
}

/// A tile changes pixels alone.
pub proof fn lemma_tile_keeps_the_rest(p: Plane, data: Seq<u8>)
    ensures
        ({
            let normal = p.after(Instruction::TileBlock, data);
            let xor = p.after(Instruction::TileBlockXor, data);
            &&& normal == (Plane { pixels: normal.pixels, ..p })
            &&& xor == (Plane { pixels: xor.pixels, ..p })
        }),
{
}

/// A color table packet holds eight colors of two bytes each: four bits of red, then
/// of green, then of blue, in the low six bits of each byte. They go to palette
/// entries 0-7 or 8-15, each channel times 17; the other eight entries, and all
/// else, stay.
pub proof fn lemma_color_table(p: Plane, data: Seq<u8>, i: int)
    requires
        p.palette.len() == 16,
        data.len() == 16,
        0 <= i < 8,
    ensures
        ({
            let bits = (data[2 * i] % 64) * 64 + data[2 * i + 1] % 64;
            let color = (bits / 256) * 17 * 65536 + (bits / 16 % 16) * 17 * 256 + (bits % 16) * 17;
            let low = p.after(Instruction::LoadColorTableLow, data);
            let high = p.after(Instruction::LoadColorTableHigh, data);
            &&& low.palette.len() == 16 && high.palette.len() == 16
            &&& low.palette[i] == color && low.palette[8 + i] == p.palette[8 + i]
            &&& high.palette[8 + i] == color && high.palette[i] == p.palette[i]
            &&& low == (Plane { palette: low.palette, ..p })
            &&& high == (Plane { palette: high.palette, ..p })
        }),
{
    let hi = data[2 * i] as int;
    let lo = data[2 * i + 1] as int;
    lemma_color_bits(hi, lo);
}

proof fn lemma_color_bits(hi: int, lo: int)
    requires
        0 <= hi < 256,
        0 <= lo < 256,
    ensures
        ((hi % 64) * 64 + lo % 64) / 256 == (hi % 64) / 4,
        ((hi % 64) * 64 + lo % 64) / 16 % 16 == hi % 4 * 4 + (lo / 16) % 4,
        ((hi % 64) * 64 + lo % 64) % 16 == lo % 16,
{
    let h = hi % 64;
    let l = lo % 64;
    assert(lo % 16 == l % 16);
    assert((lo / 16) % 4 == l / 16);
    assert(hi % 4 == h % 4);
    let n = h * 64 + l;
    assert(n == 256 * (h / 4) + 64 * (h % 4) + l);
    assert(n / 16 == 16 * (h / 4) + 4 * (h % 4) + l / 16);
}

/// Where a pixel comes from along one axis of a scroll by `step` pixels: bits 5 and 4
/// of the command byte are 1 for a move right or down, and 2 for a move left or up.
pub open spec fn scroll_source(place: int, command: u8, step: int) -> int {
    if command / 16 % 4 == 1 {
        place - step
    } else if command / 16 % 4 == 2 {
        place + step
    } else {
        place
    }
}

/// A scroll moves the picture by one tile, 6 pixels across as its second data byte
/// says and 12 down as its third says. What a scroll preset leaves free is filled
/// with the low four bits of its first data byte. A scroll copy brings in there what
/// left at the opposite edge. The low bits of the command bytes become the display
/// offsets, up to 5 and 11. Palette and border stay.
pub proof fn lemma_scroll_pixels(p: Plane, data: Seq<u8>, x: int, y: int)
    requires
        p.pixels.len() == 64800,
        0 <= x < 300,
        0 <= y < 216,
    ensures
        ({
            let sx = scroll_source(x, data[1], 6);
            let sy = scroll_source(y, data[2], 12);
            let preset = p.after(Instruction::ScrollPreset, data);
            let copy = p.after(Instruction::ScrollCopy, data);
            &&& preset.pixels.len() == 64800 && copy.pixels.len() == 64800
            &&& preset.pixels[300 * y + x] == if 0 <= sx < 300 && 0 <= sy < 216 {
                p.pixels[300 * sy + sx]
            } else {
                data[0] % 16
            }
            &&& copy.pixels[300 * y + x] == p.pixels[300 * ((sy + 216) % 216) + (sx + 300) % 300]
        }),
{
    let k = 300 * y + x;
    assert(k % 300 == x && k / 300 == y);
    let sx = scroll_source(x, data[1], 6);
    let sy = scroll_source(y, data[2], 12);
    let wx = (sx + 300) % 300;
    let wy = (sy + 216) % 216;
    assert(wx == sx % 300);
    assert(wy == sy % 216);
    assert((300 * wy + x) % 300 == x && (300 * wy + x) / 300 == wy);
    assert(0 <= 300 * wy + x < 64800);
    assert(0 <= sx < 300 ==> wx == sx);
    assert(0 <= sy < 216 ==> wy == sy);
}

/// A scroll sets the display offsets from its command bytes, and keeps palette and
/// border.
pub proof fn lemma_scroll_keeps_the_rest(p: Plane, data: Seq<u8>)
    ensures
        ({
            let preset = p.after(Instruction::ScrollPreset, data);
            let copy = p.after(Instruction::ScrollCopy, data);
            let h = data[1] % 8;
            let v = data[2] % 16;
            &&& preset.h_offset == if h < 5 {
                h as int
            } else {
                5
            }
            &&& preset.v_offset == if v < 11 {
                v as int
            } else {
                11
            }
            &&& copy.h_offset == preset.h_offset && copy.v_offset == preset.v_offset
            &&& preset.palette == p.palette && preset.border_color == p.border_color
            &&& copy.palette == p.palette && copy.border_color == p.border_color
        }),
{
}

/// The frame of a plane shows the border color in the outer 6 columns and 12 rows, and
/// within them the pixel that the display offsets have moved there, right and down
/// and around the edges.
pub proof fn lemma_frame_pixels(p: Plane, x: int, y: int)
    requires
        0 <= x < 300,
        0 <= y < 216,
    ensures
        p.frame().len() == 64800,
        p.frame()[300 * y + x] == p.palette[if 6 <= x < 294 && 12 <= y < 204 {
            p.pixels[300 * ((y - p.v_offset) % 216) + (x - p.h_offset) % 300] as int
        } else {
            p.border_color as int
        }],
{
    let k = 300 * y + x;
    assert(k % 300 == x && k / 300 == y);
}

// ── The two planes ──────────────────────────────────────────────────────────

/// A new screen has two blank planes; only the first is written and shown, and of the
/// channels the first two are active. The CLUT is black.
pub proof fn lemma_blank_screen(cdeg_enabled: bool, i: int)
    requires
        0 <= i < 256,
    ensures
        ({
            let c = Composite::blank(cdeg_enabled);
            &&& c.primary == Plane::blank() && c.secondary == Plane::blank()
            &&& c.write_mode == WriteMode::Primary && c.display_mode == DisplayMode::Primary
            &&& c.cdeg_enabled == cdeg_enabled
            &&& c.active_channels.len() == 16
            &&& i < 16 ==> c.active_channels[i] == (i == 0 || i == 1)
            &&& c.clut.len() == 256
            &&& c.clut[i].r == 0 && c.clut[i].g == 0 && c.clut[i].b == 0
        }),
{
}

/// A packet changes no setting: not whether CD+EG graphics are decoded, nor which
/// channels are active. With CD+EG off an item 2 packet changes nothing at all.
pub proof fn lemma_settings_kept(c: Composite, packet: PacketView)
    ensures
        c.after(packet).cdeg_enabled == c.cdeg_enabled,
        c.after(packet).active_channels == c.active_channels,
        !c.cdeg_enabled && packet is Item2 ==> c.after(packet) == c,
{
}

/// A memory control packet, with CD+EG on, sets both modes from its first data byte:
/// bits 1 and 0 say which planes are written, bits 3 and 2 what is shown. 256 colors
/// go only with writing to neither plane or to both: a packet that asks for anything
/// else changes nothing. The picture itself is never touched.
pub proof fn lemma_memory_control(c: Composite, data: Seq<u8>)
    requires
        c.cdeg_enabled,
    ensures
        ({
            let q = c.after(PacketView::Item2(CdegInstruction::MemoryControl, data));
            let write = data[0] % 4;
            let display = data[0] / 4 % 4;
            &&& q == (Composite { write_mode: q.write_mode, display_mode: q.display_mode, ..c })
            &&& if display == 0 && (write == 1 || write == 2) {
                q == c
            } else {
                &&& q.write_mode == WriteMode::NoWrite <==> write == 0
                &&& q.write_mode == WriteMode::Primary <==> write == 1
                &&& q.write_mode == WriteMode::Secondary <==> write == 2
                &&& q.write_mode == WriteMode::Both <==> write == 3
                &&& q.display_mode == DisplayMode::Color256 <==> display == 0
                &&& q.display_mode == DisplayMode::Primary <==> display == 1
                &&& q.display_mode == DisplayMode::Secondary <==> display == 2
                &&& q.display_mode == DisplayMode::Mix <==> display == 3
            }
        }),
{
}

/// After a memory control packet that does not ask for 256 colors, an item 1 packet
/// acts on the first plane exactly if bit 0 is set, and on the second exactly if bit
/// 1 is, as it would on a plane alone; the other is left as it was. A tile on a
/// channel that is not active acts on neither.
pub proof fn lemma_control_directs_writes(
    c: Composite,
    control: Seq<u8>,
    instruction: Instruction,
    data: Seq<u8>,
)
    requires
        c.cdeg_enabled,
        control[0] / 4 % 4 != 0,
    ensures
        ({
            let set = c.after(PacketView::Item2(CdegInstruction::MemoryControl, control));
            let q = set.after(PacketView::Item1(instruction, data));
            let tile = instruction == Instruction::TileBlock || instruction
                == Instruction::TileBlockXor;
            let channel = data[0] / 16 % 4 * 4 + data[1] / 16 % 4;
            let muted = tile && !c.active_channels[channel];
            &&& q.primary == if control[0] % 2 == 1 && !muted {
                c.primary.after(instruction, data)
            } else {
                c.primary
            }
            &&& q.secondary == if control[0] / 2 % 2 == 1 && !muted {
                c.secondary.after(instruction, data)
            } else {
                c.secondary
            }
            &&& q.clut == c.clut
        }),
{
    let b = control[0] as int;
    assert(b % 4 == b % 2 + 2 * (b / 2 % 2));
}

/// After a memory control packet that does not ask for 256 colors, a memory preset
/// fills with the low four bits of its first data byte the first plane if bit 0 is
/// set, the second if bit 1 is, and leaves a plane as it was otherwise.
pub proof fn lemma_control_directs_preset(
    c: Composite,
    control: Seq<u8>,
    data: Seq<u8>,
    k: int,
)
    requires
        c.cdeg_enabled,
        control[0] / 4 % 4 != 0,
        0 <= k < 64800,
    ensures
        ({
            let set = c.after(PacketView::Item2(CdegInstruction::MemoryControl, control));
            let q = set.after(PacketView::Item1(Instruction::MemoryPreset, data));
            let write = control[0] % 4;
            &&& write == 1 || write == 3 ==> q.primary.pixels[k] == data[0] % 16
            &&& write == 0 || write == 2 ==> q.primary == c.primary
            &&& write == 2 || write == 3 ==> q.secondary.pixels[k] == data[0] % 16
            &&& write == 0 || write == 1 ==> q.secondary == c.secondary
        }),
{
}

/// An item 1 packet outside of 256-color mode acts on the planes that the write mode
/// names, as it would on a plane alone. A tile on a channel that is not active acts
/// on neither.
pub proof fn lemma_item1_by_write_mode(c: Composite, instruction: Instruction, data: Seq<u8>)
    requires
        c.display_mode != DisplayMode::Color256,
    ensures
        ({
            let q = c.after(PacketView::Item1(instruction, data));
            let tile = instruction == Instruction::TileBlock || instruction
                == Instruction::TileBlockXor;
            let muted = tile && !c.active_channels[data[0] / 16 % 4 * 4 + data[1] / 16 % 4];
            let on = c.primary.after(instruction, data);
            let on2 = c.secondary.after(instruction, data);
            &&& muted ==> q == c
            &&& !muted ==> match c.write_mode {
                WriteMode::NoWrite => q == c,
                WriteMode::Primary => q == (Composite { primary: on, ..c }),
                WriteMode::Secondary => q == (Composite { secondary: on2, ..c }),
                WriteMode::Both => q == (Composite { primary: on, secondary: on2, ..c }),
            }
        }),
{
}

/// In 256-color mode with both planes written, an item 1 tile is painted on the first
/// plane alone. A memory preset fills the first plane and clears the second, a border
/// preset sets the first border and resets the second, and other packets do nothing.
pub proof fn lemma_item1_in_256_colors(
    c: Composite,
    instruction: Instruction,
    data: Seq<u8>,
    k: int,
)
    requires
        c.display_mode == DisplayMode::Color256,
        c.write_mode == WriteMode::Both,
        0 <= k < 64800,
    ensures
        ({
            let q = c.after(PacketView::Item1(instruction, data));
            let active = c.active_channels[data[0] / 16 % 4 * 4 + data[1] / 16 % 4];
            let on = c.primary.after(instruction, data);
            match instruction {
                Instruction::MemoryPreset => {
                    &&& q == (Composite { primary: on, secondary: q.secondary, ..c })
                    &&& q.secondary.pixels[k] == 0
                    &&& q.secondary.h_offset == 0 && q.secondary.v_offset == 0
                    &&& q.secondary.palette == c.secondary.palette
                    &&& q.secondary.border_color == c.secondary.border_color
                },
                Instruction::BorderPreset => q == (Composite {
                    primary: on,
                    secondary: Plane { border_color: 0, ..c.secondary },
                    ..c
                }),
                Instruction::TileBlock | Instruction::TileBlockXor => q == if active {
                    Composite { primary: on, ..c }
                } else {
                    c
                },
                _ => q == c,
            }
        }),
{
}

/// In 256-color mode with neither plane written, an item 1 packet does nothing.
pub proof fn lemma_item1_without_writes(c: Composite, instruction: Instruction, data: Seq<u8>)
    requires
        c.write_mode == WriteMode::NoWrite,
    ensures
        c.after(PacketView::Item1(instruction, data)) == c,
{
}

/// A font packet paints, in 256-color mode and on an active channel, the tile that an
/// item 1 tile packet with the same bytes paints, on the second plane. It does
/// nothing otherwise.
pub proof fn lemma_fonts(c: Composite, data: Seq<u8>)
    requires
        c.cdeg_enabled,
    ensures
        ({
            let set = c.after(PacketView::Item2(CdegInstruction::SetFont, data));
            let xor = c.after(PacketView::Item2(CdegInstruction::XorFont, data));
            let active = c.active_channels[data[0] / 16 % 4 * 4 + data[1] / 16 % 4];
            if c.display_mode == DisplayMode::Color256 && active {
                &&& set == (Composite {
                    secondary: c.secondary.after(Instruction::TileBlock, data),
                    ..c
                })
                &&& xor == (Composite {
                    secondary: c.secondary.after(Instruction::TileBlockXor, data),
                    ..c
                })
            } else {
                set == c && xor == c
            }
        }),
{
}

/// Outside of 256-color mode the first two loads of high CLUT bits act as item 1 color
/// tables do, on the planes that are written, and all other loads do nothing.
pub proof fn lemma_palette_fades(c: Composite, start: u8, data: Seq<u8>)
    requires
        c.cdeg_enabled,
        c.display_mode != DisplayMode::Color256,
    ensures
        ({
            let high = c.after(
                PacketView::Item2(CdegInstruction::LoadClut256High { start }, data),
            );
            &&& start == 0 ==> high == c.after(
                PacketView::Item1(Instruction::LoadColorTableLow, data),
            )
            &&& start == 8 ==> high == c.after(
                PacketView::Item1(Instruction::LoadColorTableHigh, data),
            )
            &&& start != 0 && start != 8 ==> high == c
            &&& c.after(PacketView::Item2(CdegInstruction::LoadClut256Low { start }, data)) == c
        }),
{
}

/// In 256-color mode a load of high bits sets, in eight CLUT entries from its start
/// on, the high four bits of each six-bit channel, from two data bytes each that hold
/// four bits of red, of green and of blue. The low two bits, all other entries and
/// all else stay.
pub proof fn lemma_clut_high_bits(c: Composite, start: u8, data: Seq<u8>, i: int)
    requires
        c.wf(),
        c.cdeg_enabled,
        c.display_mode == DisplayMode::Color256,
        0 <= i < 256,
    ensures
        ({
            let q = c.after(PacketView::Item2(CdegInstruction::LoadClut256High { start }, data));
            let n = i - start;
            let bits = (data[2 * n] % 64) * 64 + data[2 * n + 1] % 64;
            &&& q == (Composite { clut: q.clut, ..c }) && q.clut.len() == 256
            &&& if 0 <= n < 8 {
                &&& q.clut[i].r / 4 == bits / 256 && q.clut[i].r % 4 == c.clut[i].r % 4
                &&& q.clut[i].g / 4 == bits / 16 % 16 && q.clut[i].g % 4 == c.clut[i].g % 4
                &&& q.clut[i].b / 4 == bits % 16 && q.clut[i].b % 4 == c.clut[i].b % 4
            } else {
                q.clut[i] == c.clut[i]
            }
        }),
{
    let n = i - start;
    if 0 <= n < 8 {
        lemma_color_bits(data[2 * n] as int, data[2 * n + 1] as int);
    }
}

/// In 256-color mode a load of low bits sets, in sixteen CLUT entries from its start
/// on, the low two bits of each channel, from one data byte each that holds two bits
/// of red, of green and of blue. The high bits, all other entries and all else stay.
pub proof fn lemma_clut_low_load(c: Composite, start: u8, data: Seq<u8>, i: int)
    requires
        c.wf(),
        c.cdeg_enabled,
        c.display_mode == DisplayMode::Color256,
        0 <= i < 256,
    ensures
        ({
            let q = c.after(PacketView::Item2(CdegInstruction::LoadClut256Low { start }, data));
            let n = i - start;
            let bits = data[n] % 64;
            &&& q == (Composite { clut: q.clut, ..c }) && q.clut.len() == 256
            &&& if 0 <= n < 16 {
                &&& q.clut[i].r % 4 == bits / 16 && q.clut[i].r / 4 == c.clut[i].r / 4
                &&& q.clut[i].g % 4 == bits / 4 % 4 && q.clut[i].g / 4 == c.clut[i].g / 4
                &&& q.clut[i].b % 4 == bits % 4 && q.clut[i].b / 4 == c.clut[i].b / 4
            } else {
                q.clut[i] == c.clut[i]
            }
        }),
{
    let n = i - start;
    lemma_clut_low_bits(c, start as int, data, i);
    if 0 <= n < 16 {
        lemma_two_bits_each(data[n]);
    }
    let q = c.after(PacketView::Item2(CdegInstruction::LoadClut256Low { start }, data));
    assert(q == c.clut_low(start as int, data));
}

proof fn lemma_two_bits_each(b: u8)
    ensures
        b % 64 / 16 == b / 16 % 4,
        b % 64 / 4 % 4 == b / 4 % 4,
        b % 64 % 4 == b % 4,
{
    assert(b % 64 / 16 == b / 16 % 4 && b % 64 / 4 % 4 == b / 4 % 4 && b % 64 % 4 == b % 4)
        by (bit_vector);
}

// ── Frames of the two planes ────────────────────────────────────────────────

/// A frame shows the first or the second plane alone, if that is asked for.
pub proof fn lemma_one_plane_shown(c: Composite)
    ensures
        c.display_mode == DisplayMode::Primary ==> c.frame() == c.primary.frame(),
        c.display_mode == DisplayMode::Secondary ==> c.frame() == c.secondary.frame(),
{
    if c.display_mode == DisplayMode::Primary {
        assert(c.frame() =~= c.primary.frame());
    }
    if c.display_mode == DisplayMode::Secondary {
        assert(c.frame() =~= c.secondary.frame());
    }
}

/// The color index that a plane shows at a place: that of the border in the outer 6
/// columns and 12 rows, and within them that of the pixel which the display offsets
/// have moved there.
pub open spec fn index_shown(p: Plane, x: int, y: int) -> int {
    if 6 <= x < 294 && 12 <= y < 204 {
        p.pixels[300 * ((y - p.v_offset) % 216) + (x - p.h_offset) % 300] as int
    } else {
        p.border_color as int
    }
}

/// In 256-color mode each place shows the CLUT entry whose low four bits are the index
/// of the first plane there, and whose high four bits are that of the second. Each
/// channel of the entry counts four times.
pub proof fn lemma_frame_in_256_colors(c: Composite, x: int, y: int)
    requires
        c.wf(),
        c.display_mode == DisplayMode::Color256,
        0 <= x < 300,
        0 <= y < 216,
    ensures
        ({
            let entry = c.clut[index_shown(c.primary, x, y) + 16 * index_shown(c.secondary, x, y)];
            c.frame()[300 * y + x] == 65536 * (4 * entry.r) + 256 * (4 * entry.g) + 4 * entry.b
        }),
{
    lemma_frame_place(c, x, y);
    lemma_index_in_range(c.primary, x, y);
    lemma_index_in_range(c.secondary, x, y);
    let p = c.primary.index_at(x, y);
    let s = c.secondary.index_at(x, y);
    assert(p < 16 && s < 16 ==> p | (s << 4) == p + 16 * s) by (bit_vector);
    let entry = c.clut[p + 16 * s];
    assert(0 <= entry.r < 64 && 0 <= entry.g < 64 && 0 <= entry.b < 64);
    lemma_clut_color(entry);
}

/// The frame in row order.
proof fn lemma_frame_place(c: Composite, x: int, y: int)
    requires
        0 <= x < 300,
        0 <= y < 216,
    ensures
        c.frame()[300 * y + x] == c.color_at(x, y),
{
    lemma_position(x, y);
}

proof fn lemma_clut_color(entry: Rgb)
    requires
        0 <= entry.r < 64,
        0 <= entry.g < 64,
        0 <= entry.b < 64,
    ensures
        rgb6_of(entry) == 65536 * (4 * entry.r) + 256 * (4 * entry.g) + 4 * entry.b,
{
}

proof fn lemma_index_in_range(p: Plane, x: int, y: int)
    requires
        p.wf(),
    ensures
        0 <= index_shown(p, x, y) < 16,
        index_shown(p, x, y) == p.index_at(x, y),
{
    if 6 <= x < 294 && 12 <= y < 204 {
        let sx = (x - p.h_offset) % 300;
        let sy = (y - p.v_offset) % 216;
        assert(0 <= 300 * sy + sx < 64800);
        assert(p.pixels[300 * sy + sx] < 16);
    }
}

/// In mix mode the channels of the two shown colors are added at a sixteenth each of
/// their four-bit values, up to 255.
pub proof fn lemma_frame_mixed(c: Composite, x: int, y: int)
    requires
        c.wf(),
        c.display_mode == DisplayMode::Mix,
        0 <= x < 300,
        0 <= y < 216,
    ensures
        ({
            let p = c.primary.palette[index_shown(c.primary, x, y)];
            let s = c.secondary.palette[index_shown(c.secondary, x, y)];
            let r = 16 * (p / 65536 % 256 / 17 + s / 65536 % 256 / 17);
            let g = 16 * (p / 256 % 256 / 17 + s / 256 % 256 / 17);
            let b = 16 * (p % 256 / 17 + s % 256 / 17);
            c.frame()[300 * y + x] == 65536 * (if r < 255 {
                r
            } else {
                255
            }) + 256 * (if g < 255 {
                g
            } else {
                255
            }) + (if b < 255 {
                b
            } else {
                255
            })
        }),
{
    lemma_frame_place(c, x, y);
    lemma_index_in_range(c.primary, x, y);
    lemma_index_in_range(c.secondary, x, y);
}

} // verus!
