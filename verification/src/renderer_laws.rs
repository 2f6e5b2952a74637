//! Laws of the graphics state: what every packet keeps, what undoes what, and
//! what a frame shows.

use crate::cdg::{Instruction, PacketView};
use crate::renderer::{
    blue, color4_of, green, in_view, lemma_place, lemma_position, mix, mix_colors, pack, red,
    scroll_step, within_tile, Composite, DisplayMode, HEIGHT, PIXEL_COUNT, Plane, Rgb, TILE_H,
    TILE_W, WIDTH, WriteMode,
};
use vstd::arithmetic::div_mod::{
    lemma_fundamental_div_mod, lemma_fundamental_div_mod_converse, lemma_mod_bound,
};
use vstd::prelude::*;

verus! {

/// A blank plane is well-formed.
pub proof fn lemma_blank_plane_wf()
    ensures
        Plane::blank().wf(),
{
}

/// Every color index that a well-formed plane shows is in its palette.
pub proof fn lemma_wf_displayable(p: Plane)
    requires
        p.wf(),
    ensures
        p.displayable(),
{
    assert forall|x: int, y: int| in_view(x, y) implies #[trigger] p.shown(x, y) < 16 by {
        let sx = (x - p.h_offset) % WIDTH as int;
        let sy = (y - p.v_offset) % HEIGHT as int;
        assert(0 <= sx < WIDTH && 0 <= sy < HEIGHT);
        assert(0 <= sy * WIDTH + sx < PIXEL_COUNT);
        assert(p.pixels[sy * WIDTH + sx] < 16);
    }
}

proof fn lemma_tiled_wf(p: Plane, data: Seq<u8>, xor: bool)
    requires
        p.wf(),
    ensures
        p.tiled(data, xor).wf(),
{
    let q = p.tiled(data, xor);
    assert forall|k: int| 0 <= k < PIXEL_COUNT implies #[trigger] q.pixels[k] < 16 by {
        lemma_place(k);
        let (x, y) = (k % WIDTH as int, k / WIDTH as int);
        let a = p.pixels[k];
        assert(p.at(x, y) == a);
        assert forall|c: u8| c < 16 implies #[trigger] (a ^ c) < 16 by {
            assert(a < 16 && c < 16 ==> (a ^ c) < 16) by (bit_vector);
        }
    }
}

proof fn lemma_moved_wf(p: Plane, d: int, fill: u8, wrap: bool)
    requires
        p.wf(),
        fill < 16,
    ensures
        p.moved_h(d, fill, wrap).wf(),
        p.moved_v(d, fill, wrap).wf(),
{
    assert forall|k: int| 0 <= k < PIXEL_COUNT implies (#[trigger] p.moved_h(
        d,
        fill,
        wrap,
    ).pixels[k]) < 16 by {
        lemma_place(k);
        let sx = (k % WIDTH as int - d) % WIDTH as int;
        assert(0 <= k / (WIDTH as int) * WIDTH + sx < PIXEL_COUNT);
    }
    assert forall|k: int| 0 <= k < PIXEL_COUNT implies (#[trigger] p.moved_v(
        d,
        fill,
        wrap,
    ).pixels[k]) < 16 by {
        lemma_place(k);
        let sy = (k / WIDTH as int - d) % HEIGHT as int;
        assert(0 <= sy * WIDTH + k % (WIDTH as int) < PIXEL_COUNT);
    }
}

/// A packet keeps a plane well-formed.
pub proof fn lemma_plane_stays_wf(p: Plane, instruction: Instruction, data: Seq<u8>)
    requires
        p.wf(),
    ensures
        p.after(instruction, data).wf(),
{
    lemma_tiled_wf(p, data, false);
    lemma_tiled_wf(p, data, true);
    let fill = (data[0] % 16) as u8;
    let offset = Plane {
        h_offset: within_tile((data[1] % 8) as int, TILE_W as int),
        v_offset: within_tile((data[2] % 16) as int, TILE_H as int),
        ..p
    };
    assert forall|d: int, wrap: bool| (#[trigger] offset.moved_h(d, fill, wrap)).wf() by {
        lemma_moved_wf(offset, d, fill, wrap);
    }
    assert forall|q: Plane, d: int, wrap: bool| q.wf() implies (#[trigger] q.moved_v(
        d,
        fill,
        wrap,
    )).wf() by {
        lemma_moved_wf(q, d, fill, wrap);
    }
}

/// A blank screen is well-formed.
pub proof fn lemma_blank_wf(cdeg_enabled: bool)
    ensures
        Composite::blank(cdeg_enabled).wf(),
{
}

/// A packet keeps the screen well-formed.
pub proof fn lemma_stays_wf(c: Composite, packet: PacketView)
    requires
        c.wf(),
    ensures
        c.after(packet).wf(),
{
    match packet {
        PacketView::Item1(instruction, data) => {
            lemma_plane_stays_wf(c.primary, instruction, data);
            lemma_plane_stays_wf(c.secondary, instruction, data);
        },
        PacketView::Item2(instruction, data) => {
            lemma_tiled_wf(c.secondary, data, false);
            lemma_tiled_wf(c.secondary, data, true);
        },
    }
}

/// A well-formed screen can be rendered in every display mode.
pub proof fn lemma_wf_screen_displayable(c: Composite)
    requires
        c.wf(),
    ensures
        c.displayable(),
{
    lemma_wf_displayable(c.primary);
    lemma_wf_displayable(c.secondary);
}

/// The border of a plane's frame shows the border color, whatever the pixels.
pub proof fn lemma_border_shows_border_color(p: Plane, x: int, y: int)
    requires
        0 <= x < WIDTH,
        0 <= y < HEIGHT,
        !in_view(x, y),
    ensures
        p.frame()[y * WIDTH + x] == p.palette[p.border_color as int],
{
    assert(0 <= y * WIDTH + x < PIXEL_COUNT);
    assert((y * WIDTH + x) % WIDTH as int == x);
    assert((y * WIDTH + x) / WIDTH as int == y);
}

/// A border preset changes no pixel, so tile data in the border zone survives.
pub proof fn lemma_border_preset_keeps_pixels(p: Plane, data: Seq<u8>)
    ensures
        p.after(Instruction::BorderPreset, data).pixels == p.pixels,
        p.after(Instruction::BorderPreset, data).palette == p.palette,
{
}

/// Painting the same tile twice in XOR mode restores the plane.
pub proof fn lemma_xor_tile_undoes_itself(p: Plane, data: Seq<u8>)
    requires
        p.pixels.len() == PIXEL_COUNT,
    ensures
        p.tiled(data, true).tiled(data, true) == p,
{
    let once = p.tiled(data, true);
    let twice = once.tiled(data, true);
    assert forall|k: int| 0 <= k < PIXEL_COUNT implies twice.pixels[k] == p.pixels[k] by {
        lemma_place(k);
        let a = p.pixels[k];
        assert forall|c: u8| #[trigger] ((a ^ c) ^ c) == a by {
            assert((a ^ c) ^ c == a) by (bit_vector);
        }
    }
    assert(twice.pixels =~= p.pixels);
}

/// What a step there and a step back, both around an edge, come to.
proof fn lemma_there_and_back(x: int, d: int, m: int)
    requires
        0 <= x < m,
    ensures
        0 <= (x + d) % m < m,
        ((x + d) % m - d) % m == x,
{
    let q = (x + d) / m;
    let r = (x + d) % m;
    lemma_fundamental_div_mod(x + d, m);
    lemma_mod_bound(x + d, m);
    assert(m * q == -(-q * m)) by (nonlinear_arith);
    lemma_fundamental_div_mod_converse(r - d, m, -q, x);
}

/// Moving back what a wrapping move moved restores the plane.
pub proof fn lemma_wrapping_move_undone(p: Plane, d: int, fill: u8)
    requires
        p.pixels.len() == PIXEL_COUNT,
    ensures
        p.moved_h(d, fill, true).moved_h(-d, fill, true) == p,
        p.moved_v(d, fill, true).moved_v(-d, fill, true) == p,
{
    let h = p.moved_h(d, fill, true).moved_h(-d, fill, true);
    assert forall|k: int| 0 <= k < PIXEL_COUNT implies h.pixels[k] == p.pixels[k] by {
        lemma_place(k);
        let (x, y) = (k % WIDTH as int, k / WIDTH as int);
        lemma_there_and_back(x, d, WIDTH as int);
        lemma_position((x + d) % WIDTH as int, y);
    }
    assert(h.pixels =~= p.pixels);
    let v = p.moved_v(d, fill, true).moved_v(-d, fill, true);
    assert forall|k: int| 0 <= k < PIXEL_COUNT implies v.pixels[k] == p.pixels[k] by {
        lemma_place(k);
        let (x, y) = (k % WIDTH as int, k / WIDTH as int);
        lemma_there_and_back(y, d, HEIGHT as int);
        lemma_position(x, (y + d) % HEIGHT as int);
    }
    assert(v.pixels =~= p.pixels);
}

/// With CD+EG off, a screen is a standard CD+G decoder: item 2 packets do
/// nothing, item 1 packets draw on the primary plane unless they paint a tile
/// on an inactive channel, and the frame is that of the primary plane.
pub proof fn lemma_plain_cdg(c: Composite, packet: PacketView)
    requires
        !c.cdeg_enabled,
        c.write_mode == WriteMode::Primary,
        c.display_mode == DisplayMode::Primary,
    ensures
        c.after(packet) == (Composite { primary: c.after(packet).primary, ..c }),
        packet is Item2 ==> c.after(packet) == c,
        packet matches PacketView::Item1(instruction, data) ==> {
            ||| c.after(packet).primary == c.primary.after(instruction, data)
            ||| {
                &&& instruction == Instruction::TileBlock || instruction
                    == Instruction::TileBlockXor
                &&& !c.active_channels[crate::cdg::channel_of(data)]
                &&& c.after(packet) == c
            }
        },
        c.frame() == c.primary.frame(),
{
    assert(c.frame() =~= c.primary.frame());
}

/// A CLUT entry whose high bits and low bits have both been loaded holds
/// exactly the loaded color, in whichever order they came.
pub proof fn lemma_clut_entry_loaded(
    c: Composite,
    high_start: int,
    high: Seq<u8>,
    low_start: int,
    low: Seq<u8>,
    i: int,
)
    requires
        c.clut.len() == 256,
        0 <= i < 256,
        high_start <= i < high_start + 8,
        low_start <= i < low_start + 16,
    ensures
        ({
            let h = color4_of(high, i - high_start);
            let l = low[i - low_start];
            let loaded = Rgb {
                r: h.r * 4 + (l / 16) % 4,
                g: h.g * 4 + (l / 4) % 4,
                b: h.b * 4 + l % 4,
            };
            &&& c.clut_high(high_start, high).clut_low(low_start, low).clut[i] == loaded
            &&& c.clut_low(low_start, low).clut_high(high_start, high).clut[i] == loaded
        }),
{
    let h = color4_of(high, i - high_start);
    let l = low[i - low_start];
    let e = c.clut[i];
    let after_high = c.clut_high(high_start, high).clut[i];
    let after_low = c.clut_low(low_start, low).clut[i];
    assert(after_high == (Rgb {
        r: h.r * 4 + e.r % 4,
        g: h.g * 4 + e.g % 4,
        b: h.b * 4 + e.b % 4,
    }));
    assert(after_low == (Rgb {
        r: (e.r % 64) / 4 * 4 + (l / 16) % 4,
        g: (e.g % 64) / 4 * 4 + (l / 4) % 4,
        b: (e.b % 64) / 4 * 4 + l % 4,
    }));
    lemma_channel_loaded(h.r, ((l / 16) % 4) as int, e.r);
    lemma_channel_loaded(h.g, ((l / 4) % 4) as int, e.g);
    lemma_channel_loaded(h.b, (l % 4) as int, e.b);
}

proof fn lemma_channel_loaded(high: int, low: int, channel: int)
    requires
        0 <= high < 16,
        0 <= low < 4,
    ensures
        (high * 4 + channel % 4) % 64 / 4 * 4 + low == high * 4 + low,
        high * 4 + ((channel % 64) / 4 * 4 + low) % 4 == high * 4 + low,
{
}

/// Whatever its data bytes, a scroll leaves display offsets within a tile: 0-5
/// pixels across and 0-11 down.
pub proof fn lemma_scroll_offsets(p: Plane, data: Seq<u8>, wrap: bool)
    ensures
        0 <= p.scrolled(data, wrap).h_offset <= 5,
        0 <= p.scrolled(data, wrap).v_offset <= 11,
{
}

/// A move without wrapping fills the vacated columns or rows, and takes every other
/// pixel from where it was before.
pub proof fn lemma_moved_pixels(p: Plane, d: int, fill: u8, x: int, y: int)
    requires
        0 <= x < WIDTH,
        0 <= y < HEIGHT,
    ensures
        p.moved_h(d, fill, false).at(x, y) == if 0 <= x - d < WIDTH {
            p.at(x - d, y)
        } else {
            fill
        },
        p.moved_v(d, fill, false).at(x, y) == if 0 <= y - d < HEIGHT {
            p.at(x, y - d)
        } else {
            fill
        },
{
    assert((y * WIDTH + x) % WIDTH as int == x);
    assert((y * WIDTH + x) / WIDTH as int == y);
}

/// A move across and a move down can be exchanged.
pub proof fn lemma_moves_exchanged(p: Plane, dx: int, dy: int, fill: u8, wrap: bool)
    ensures
        p.moved_h(dx, fill, wrap).moved_v(dy, fill, wrap) == p.moved_v(dy, fill, wrap).moved_h(
            dx,
            fill,
            wrap,
        ),
{
    let a = p.moved_h(dx, fill, wrap).moved_v(dy, fill, wrap);
    let b = p.moved_v(dy, fill, wrap).moved_h(dx, fill, wrap);
    assert forall|k: int| 0 <= k < PIXEL_COUNT implies a.pixels[k] == b.pixels[k] by {
        lemma_place(k);
        let (x, y) = (k % WIDTH as int, k / WIDTH as int);
        let sx = (x - dx) % WIDTH as int;
        let sy = (y - dy) % HEIGHT as int;
        assert(0 <= sy * WIDTH + x < PIXEL_COUNT);
        assert((sy * WIDTH + x) % WIDTH as int == x);
        assert((sy * WIDTH + x) / WIDTH as int == sy);
        assert(0 <= y * WIDTH + sx < PIXEL_COUNT);
        assert((y * WIDTH + sx) % WIDTH as int == sx);
        assert((y * WIDTH + sx) / WIDTH as int == y);
    }
    assert(a.pixels =~= b.pixels);
}

/// Where a move takes the pixels depends on the pixels alone.
proof fn lemma_moves_look_at_pixels(p: Plane, q: Plane, d: int, fill: u8, wrap: bool)
    requires
        p.pixels == q.pixels,
    ensures
        p.moved_h(d, fill, wrap).pixels == q.moved_h(d, fill, wrap).pixels,
        p.moved_v(d, fill, wrap).pixels == q.moved_v(d, fill, wrap).pixels,
{
    assert(p.moved_h(d, fill, wrap).pixels =~= q.moved_h(d, fill, wrap).pixels);
    assert(p.moved_v(d, fill, wrap).pixels =~= q.moved_v(d, fill, wrap).pixels);
}

/// The fill color does not matter to a wrapping move.
proof fn lemma_fill_unused(p: Plane, d: int, f: u8, g: u8)
    ensures
        p.moved_h(d, f, true) == p.moved_h(d, g, true),
        p.moved_v(d, f, true) == p.moved_v(d, g, true),
{
    assert(p.moved_h(d, f, true).pixels =~= p.moved_h(d, g, true).pixels);
    assert(p.moved_v(d, f, true).pixels =~= p.moved_v(d, g, true).pixels);
}

/// A move by nothing changes nothing.
proof fn lemma_no_move(p: Plane, fill: u8)
    requires
        p.pixels.len() == PIXEL_COUNT,
    ensures
        p.moved_h(0, fill, true) == p,
        p.moved_v(0, fill, true) == p,
{
    assert forall|k: int| 0 <= k < PIXEL_COUNT implies p.moved_h(0, fill, true).pixels[k]
        == p.pixels[k] && p.moved_v(0, fill, true).pixels[k] == p.pixels[k] by {
        lemma_place(k);
    }
    assert(p.moved_h(0, fill, true).pixels =~= p.pixels);
    assert(p.moved_v(0, fill, true).pixels =~= p.pixels);
}

/// A wrapping scroll that is followed by the one in the opposite directions, along
/// both axes, restores every pixel. Palette and border are untouched throughout,
/// and the display offsets are those of the second scroll.
pub proof fn lemma_scroll_copy_undone(p: Plane, there: Seq<u8>, back: Seq<u8>)
    requires
        p.pixels.len() == PIXEL_COUNT,
        scroll_step(back[1]) == -scroll_step(there[1]),
        scroll_step(back[2]) == -scroll_step(there[2]),
    ensures
        p.scrolled(there, true).scrolled(back, true) == (Plane {
            h_offset: within_tile((back[1] % 8) as int, TILE_W as int),
            v_offset: within_tile((back[2] % 16) as int, TILE_H as int),
            ..p
        }),
{
    let dx = scroll_step(there[1]) * TILE_W;
    let dy = scroll_step(there[2]) * TILE_H;
    let f = (there[0] % 16) as u8;
    let g = (back[0] % 16) as u8;
    let o = Plane {
        h_offset: within_tile((there[1] % 8) as int, TILE_W as int),
        v_offset: within_tile((there[2] % 16) as int, TILE_H as int),
        ..p
    };
    // The first scroll.
    lemma_no_move(o, f);
    let across = o.moved_h(dx, f, true);
    lemma_no_move(across, f);
    let once = across.moved_v(dy, f, true);
    assert(p.scrolled(there, true) == once);
    // The second one.
    let r = Plane {
        h_offset: within_tile((back[1] % 8) as int, TILE_W as int),
        v_offset: within_tile((back[2] % 16) as int, TILE_H as int),
        ..once
    };
    lemma_no_move(r, g);
    let returned = r.moved_h(-dx, g, true);
    lemma_no_move(returned, g);
    let twice = returned.moved_v(-dy, g, true);
    assert(scroll_step(back[1]) * TILE_W == -dx);
    assert(scroll_step(back[2]) * TILE_H == -dy);
    assert(once.scrolled(back, true) == twice);
    // Its pixels.
    lemma_moves_look_at_pixels(r, once, -dx, g, true);
    lemma_fill_unused(once, -dx, g, f);
    lemma_moves_exchanged(across, -dx, dy, f, true);
    lemma_wrapping_move_undone(o, dx, f);
    assert(returned.pixels == o.moved_v(dy, f, true).pixels);
    lemma_moves_look_at_pixels(returned, o.moved_v(dy, f, true), -dy, g, true);
    lemma_fill_unused(o.moved_v(dy, f, true), -dy, g, f);
    lemma_wrapping_move_undone(o, dy, f);
    assert(twice.pixels == p.pixels);
}

/// Loading low bits sets exactly the low two bits of sixteen entries, and keeps the
/// high bits and all other entries.
pub proof fn lemma_clut_low_bits(c: Composite, start: int, data: Seq<u8>, i: int)
    requires
        c.wf(),
        0 <= i < 256,
    ensures
        ({
            let before = c.clut[i];
            let after = c.clut_low(start, data).clut[i];
            if start <= i < start + 16 {
                let low = data[i - start];
                &&& after.r % 4 == (low / 16) % 4 && after.r / 4 == before.r / 4
                &&& after.g % 4 == (low / 4) % 4 && after.g / 4 == before.g / 4
                &&& after.b % 4 == low % 4 && after.b / 4 == before.b / 4
            } else {
                after == before
            }
        }),
{
    let before = c.clut[i];
    if start <= i < start + 16 {
        let low = data[i - start];
        lemma_low_bits_replaced(before.r, ((low / 16) % 4) as int);
        lemma_low_bits_replaced(before.g, ((low / 4) % 4) as int);
        lemma_low_bits_replaced(before.b, (low % 4) as int);
        assert(c.clut_low(start, data).clut[i] == (Rgb {
            r: (before.r % 64) / 4 * 4 + (low / 16) % 4,
            g: (before.g % 64) / 4 * 4 + (low / 4) % 4,
            b: (before.b % 64) / 4 * 4 + low % 4,
        }));
    }
}

proof fn lemma_low_bits_replaced(channel: int, low: int)
    requires
        0 <= channel < 64,
        0 <= low < 4,
    ensures
        ((channel % 64) / 4 * 4 + low) % 4 == low,
        ((channel % 64) / 4 * 4 + low) / 4 == channel / 4,
{
}

/// The loads of high and of low CLUT bits can be exchanged, on the whole CLUT.
pub proof fn lemma_clut_loads_exchanged(
    c: Composite,
    high_start: int,
    high: Seq<u8>,
    low_start: int,
    low: Seq<u8>,
)
    requires
        c.clut.len() == 256,
    ensures
        c.clut_high(high_start, high).clut_low(low_start, low) == c.clut_low(
            low_start,
            low,
        ).clut_high(high_start, high),
{
    let a = c.clut_high(high_start, high).clut_low(low_start, low);
    let b = c.clut_low(low_start, low).clut_high(high_start, high);
    assert forall|i: int| 0 <= i < 256 implies a.clut[i] == b.clut[i] by {
        if high_start <= i < high_start + 8 && low_start <= i < low_start + 16 {
            lemma_clut_entry_loaded(c, high_start, high, low_start, low, i);
        }
    }
    assert(a.clut =~= b.clut);
}

/// One channel of a mixed color is a multiple of 16 up to 240, or 255.
pub open spec fn mixed_channel(c: int) -> bool {
    c == 255 || 0 <= c <= 240 && c % 16 == 0
}

/// Mixing does not depend on the order of the two colors. Every channel of the mix
/// is a multiple of 16 up to 240, or 255, and its top byte is 0.
pub proof fn lemma_mixed_color(p: u32, s: u32)
    ensures
        mix_colors(p, s) == mix_colors(s, p),
        mixed_channel(red(mix_colors(p, s))),
        mixed_channel(green(mix_colors(p, s))),
        mixed_channel(blue(mix_colors(p, s))),
        mix_colors(p, s) < 0x100_0000,
{
    lemma_mixed_channel(red(p), red(s));
    lemma_mixed_channel(green(p), green(s));
    lemma_mixed_channel(blue(p), blue(s));
    lemma_packed_channels(
        mix(red(p), red(s)),
        mix(green(p), green(s)),
        mix(blue(p), blue(s)),
    );
}

proof fn lemma_mixed_channel(p8: int, s8: int)
    requires
        0 <= p8 < 256,
        0 <= s8 < 256,
    ensures
        mix(p8, s8) == mix(s8, p8),
        mixed_channel(mix(p8, s8)),
{
}

proof fn lemma_packed_channels(r: int, g: int, b: int)
    requires
        0 <= r < 256,
        0 <= g < 256,
        0 <= b < 256,
    ensures
        red(pack(r, g, b)) == r,
        green(pack(r, g, b)) == g,
        blue(pack(r, g, b)) == b,
        pack(r, g, b) < 0x100_0000,
{
    let n = r * 0x1_0000 + g * 0x100 + b;
    assert(n / 0x1_0000 == r);
    assert(n / 0x100 == r * 0x100 + g);
}

/// Exchanging the planes does not change a mixed frame.
pub proof fn lemma_mixed_planes_exchanged(c: Composite)
    requires
        c.display_mode == DisplayMode::Mix,
    ensures
        (Composite { primary: c.secondary, secondary: c.primary, ..c }).frame() == c.frame(),
{
    let t = Composite { primary: c.secondary, secondary: c.primary, ..c };
    assert forall|x: int, y: int| t.color_at(x, y) == #[trigger] c.color_at(x, y) by {
        lemma_mixed_color(c.primary.color_at(x, y), c.secondary.color_at(x, y));
    }
    assert(t.frame() =~= c.frame());
}

/// Every channel of every pixel of a mixed frame is a multiple of 16 up to 240, or
/// 255, and the top byte is 0.
pub proof fn lemma_mixed_frame(c: Composite, k: int)
    requires
        c.display_mode == DisplayMode::Mix,
        0 <= k < PIXEL_COUNT,
    ensures
        mixed_channel(red(c.frame()[k])),
        mixed_channel(green(c.frame()[k])),
        mixed_channel(blue(c.frame()[k])),
        c.frame()[k] < 0x100_0000,
{
    let (x, y) = (k % WIDTH as int, k / WIDTH as int);
    lemma_mixed_color(c.primary.color_at(x, y), c.secondary.color_at(x, y));
}

} // verus!
