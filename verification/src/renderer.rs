//! Graphics state of a CD+G plane and of the two-plane CD+EG screen, and their
//! rendering to a 0x00RRGGBB framebuffer.

use crate::cdg::{
    channel_of, tile_channel, AnyPacket, CdegInstruction, CdegPacket, Instruction, Packet, PacketView,
};
use vstd::prelude::*;

verus! {

pub const WIDTH: usize = 300;

pub const HEIGHT: usize = 216;

/// Pixels on one plane.
pub const PIXEL_COUNT: usize = 64800;

// The visible area starts at (6, 12) and is 288x192; the border surrounds it.
pub const BORDER_X: usize = 6;

pub const BORDER_Y: usize = 12;

// One tile packet paints one tile.
pub const TILE_W: usize = 6;

pub const TILE_H: usize = 12;

/// 16-color palette in packed 0x00RRGGBB format.
pub type Palette = [u32; 16];

// ── One plane ───────────────────────────────────────────────────────────────

/// Standard CD+G graphics state for one plane.
pub struct Screen {
    /// Color indices, one byte per pixel (values 0-15).
    pub pixels: Box<[u8; PIXEL_COUNT]>,
    pub palette: Palette,
    /// Border color index, shown over the border zone at display time only.
    /// It is never written into `pixels`, so tile data drawn in the border
    /// survives scrolling.
    pub border_color: u8,
    /// Sub-tile horizontal display offset (0-5 px), set by scroll commands.
    pub h_offset: i8,
    /// Sub-tile vertical display offset (0-11 px), set by scroll commands.
    pub v_offset: i8,
}

/// Mathematical state of a [`Screen`]. Pixels are in row order.
#[verifier::ext_equal]
pub struct Plane {
    pub pixels: Seq<u8>,
    pub palette: Seq<u32>,
    pub border_color: u8,
    pub h_offset: int,
    pub v_offset: int,
}

impl View for Screen {
    type V = Plane;

    open spec fn view(&self) -> Plane {
        Plane {
            pixels: self.pixels@,
            palette: self.palette@,
            border_color: self.border_color,
            h_offset: self.h_offset as int,
            v_offset: self.v_offset as int,
        }
    }
}

/// A plane's worth of pixels given by column and row.
pub open spec fn picture<T>(pixel: spec_fn(int, int) -> T) -> Seq<T> {
    Seq::new(PIXEL_COUNT as nat, |k: int| pixel(k % WIDTH as int, k / WIDTH as int))
}

/// Whether a screen position lies inside the border.
pub open spec fn in_view(x: int, y: int) -> bool {
    BORDER_X <= x < WIDTH - BORDER_X && BORDER_Y <= y < HEIGHT - BORDER_Y
}

impl Plane {
    /// The pixel at column `x` and row `y`.
    pub open spec fn at(self, x: int, y: int) -> u8 {
        self.pixels[y * WIDTH + x]
    }

    /// The pixel that is shown at a screen position: the display offsets move
    /// the picture right and down, and it wraps around.
    pub open spec fn shown(self, x: int, y: int) -> u8 {
        self.at((x - self.h_offset) % WIDTH as int, (y - self.v_offset) % HEIGHT as int)
    }

    /// The invariant of a plane that packets have drawn: color indices are
    /// 0-15 and the offsets stay within a tile, 0-5 and 0-11.
    pub open spec fn wf(self) -> bool {
        &&& self.pixels.len() == PIXEL_COUNT
        &&& self.palette.len() == 16
        &&& forall|k: int| 0 <= k < PIXEL_COUNT ==> #[trigger] self.pixels[k] < 16
        &&& self.border_color < 16
        &&& 0 <= self.h_offset < TILE_W
        &&& 0 <= self.v_offset < TILE_H
    }

    /// Whether every color index that rendering looks up is in the palette.
    pub open spec fn displayable(self) -> bool {
        &&& self.border_color < 16
        &&& forall|x: int, y: int| in_view(x, y) ==> #[trigger] self.shown(x, y) < 16
    }

    /// The color index shown at a screen position, the border included.
    pub open spec fn index_at(self, x: int, y: int) -> u8 {
        if in_view(x, y) {
            self.shown(x, y)
        } else {
            self.border_color
        }
    }

    /// The color shown at a screen position.
    pub open spec fn color_at(self, x: int, y: int) -> u32 {
        self.palette[self.index_at(x, y) as int]
    }

    /// The rendered frame.
    pub open spec fn frame(self) -> Seq<u32> {
        picture(|x: int, y: int| self.color_at(x, y))
    }

    /// The initial state: all black, no offsets.
    pub open spec fn blank() -> Plane {
        Plane {
            pixels: picture(|x: int, y: int| 0u8),
            palette: Seq::new(16, |i: int| 0u32),
            border_color: 0,
            h_offset: 0,
            v_offset: 0,
        }
    }

    /// Every pixel set to `color`, offsets reset.
    pub open spec fn filled(self, color: u8) -> Plane {
        Plane { pixels: picture(|x: int, y: int| color), h_offset: 0, v_offset: 0, ..self }
    }

    /// A tile painted at the place and in the colors that `data` gives. A tile
    /// that would leave the plane is not painted.
    pub open spec fn tiled(self, data: Seq<u8>, xor: bool) -> Plane {
        let left = tile_left(data);
        let top = tile_top(data);
        if left + TILE_W > WIDTH || top + TILE_H > HEIGHT {
            self
        } else {
            Plane {
                pixels: picture(
                    |x: int, y: int|
                        if left <= x < left + TILE_W && top <= y < top + TILE_H {
                            let color = tile_color(data, x - left, y - top);
                            if xor {
                                self.at(x, y) ^ color
                            } else {
                                color
                            }
                        } else {
                            self.at(x, y)
                        },
                ),
                ..self
            }
        }
    }

    /// Eight palette entries from `base` on replaced.
    pub open spec fn recolored(self, data: Seq<u8>, base: int) -> Plane {
        Plane {
            palette: Seq::new(
                16,
                |i: int|
                    if base <= i < base + 8 {
                        rgb_of(color4_of(data, i - base))
                    } else {
                        self.palette[i]
                    },
            ),
            ..self
        }
    }

    /// The picture moved right by `dx` pixels (left if negative). What leaves
    /// at one edge enters at the other if `wrap`; else the vacated columns are
    /// filled.
    pub open spec fn moved_h(self, dx: int, fill: u8, wrap: bool) -> Plane {
        Plane {
            pixels: picture(
                |x: int, y: int|
                    if !wrap && !(0 <= x - dx < WIDTH) {
                        fill
                    } else {
                        self.at((x - dx) % WIDTH as int, y)
                    },
            ),
            ..self
        }
    }

    /// The picture moved down by `dy` pixels (up if negative), as `moved_h`.
    pub open spec fn moved_v(self, dy: int, fill: u8, wrap: bool) -> Plane {
        Plane {
            pixels: picture(
                |x: int, y: int|
                    if !wrap && !(0 <= y - dy < HEIGHT) {
                        fill
                    } else {
                        self.at(x, (y - dy) % HEIGHT as int)
                    },
            ),
            ..self
        }
    }

    /// A scroll command: new display offsets, held within a tile, then a move by one tile width
    /// and one tile height in the directions that the command bits name.
    pub open spec fn scrolled(self, data: Seq<u8>, wrap: bool) -> Plane {
        let fill = (data[0] % 16) as u8;
        let offset = Plane {
            h_offset: within_tile((data[1] % 8) as int, TILE_W as int),
            v_offset: within_tile((data[2] % 16) as int, TILE_H as int),
            ..self
        };
        let h = scroll_step(data[1]);
        let v = scroll_step(data[2]);
        let across = if h == 0 {
            offset
        } else {
            offset.moved_h(h * TILE_W, fill, wrap)
        };
        if v == 0 {
            across
        } else {
            across.moved_v(v * TILE_H, fill, wrap)
        }
    }

    /// The plane after a standard CD+G packet.
    pub open spec fn after(self, instruction: Instruction, data: Seq<u8>) -> Plane {
        match instruction {
            Instruction::MemoryPreset => self.filled((data[0] % 16) as u8),
            Instruction::BorderPreset => Plane { border_color: (data[0] % 16) as u8, ..self },
            Instruction::TileBlock => self.tiled(data, false),
            Instruction::TileBlockXor => self.tiled(data, true),
            Instruction::LoadColorTableLow => self.recolored(data, 0),
            Instruction::LoadColorTableHigh => self.recolored(data, 8),
            Instruction::ScrollPreset => self.scrolled(data, false),
            Instruction::ScrollCopy => self.scrolled(data, true),
            Instruction::DefineTransparent => self,
        }
    }
}

/// Left edge of the tile that `data` addresses.
pub open spec fn tile_left(data: Seq<u8>) -> int {
    data[3] % 64 * TILE_W
}

/// Top edge of the tile that `data` addresses.
pub open spec fn tile_top(data: Seq<u8>) -> int {
    data[2] % 32 * TILE_H
}

/// The color of one pixel of a tile: bit 5 of a row byte is its leftmost pixel,
/// and a set bit selects the second color.
pub open spec fn tile_color(data: Seq<u8>, col: int, row: int) -> u8 {
    if (data[4 + row] >> (5 - col) as usize) & 1 == 0 {
        (data[0] % 16) as u8
    } else {
        (data[1] % 16) as u8
    }
}

/// An offset that a scroll command names, held within a tile of the given size.
pub open spec fn within_tile(offset: int, size: int) -> int {
    if offset < size {
        offset
    } else {
        size - 1
    }
}

/// Direction of a scroll along one axis: 1 forward, -1 backward, 0 none.
pub open spec fn scroll_step(command: u8) -> int {
    match (command / 16) % 4 {
        1 => 1,
        2 => -1,
        _ => 0,
    }
}

/// A color with one number per channel.
pub struct Rgb {
    pub r: int,
    pub g: int,
    pub b: int,
}

/// The `i`-th 4-bit color of a color table packet, packed in two bytes as
/// `rrrrgg ggbbbb`.
pub open spec fn color4_of(data: Seq<u8>, i: int) -> Rgb {
    let hi = data[2 * i];
    let lo = data[2 * i + 1];
    Rgb {
        r: ((hi % 64) / 4) as int,
        g: hi % 4 * 4 + (lo / 16) % 4,
        b: (lo % 16) as int,
    }
}

/// A packed color from 8-bit channels.
pub open spec fn pack(r: int, g: int, b: int) -> u32 {
    (r * 0x1_0000 + g * 0x100 + b) as u32
}

/// A packed color from 4-bit channels, spread over the 8-bit range.
pub open spec fn rgb_of(c: Rgb) -> u32 {
    pack(c.r * 17, c.g * 17, c.b * 17)
}

/// Where a pixel stands in row order.
pub(crate) proof fn lemma_position(x: int, y: int)
    requires
        0 <= x < WIDTH,
        0 <= y < HEIGHT,
    ensures
        0 <= y * WIDTH + x < PIXEL_COUNT,
        (y * WIDTH + x) % WIDTH as int == x,
        (y * WIDTH + x) / WIDTH as int == y,
{
}

/// Column and row of a place in row order.
pub(crate) proof fn lemma_place(k: int)
    requires
        0 <= k < PIXEL_COUNT,
    ensures
        0 <= k % WIDTH as int,
        k % (WIDTH as int) < WIDTH,
        0 <= k / WIDTH as int,
        k / (WIDTH as int) < HEIGHT,
        k / (WIDTH as int) * WIDTH + k % (WIDTH as int) == k,
{
}

proof fn lemma_low_bits(b: u8)
    ensures
        b & 0x0F == b % 16,
        b & 0x07 == b % 8,
        b & 0x1F == b % 32,
        b & 0x3F == b % 64,
        b & 0x03 == b % 4,
        (b >> 4) & 0x03 == (b / 16) % 4,
{
    assert(b & 0x0F == b % 16) by (bit_vector);
    assert(b & 0x07 == b % 8) by (bit_vector);
    assert(b & 0x1F == b % 32) by (bit_vector);
    assert(b & 0x3F == b % 64) by (bit_vector);
    assert(b & 0x03 == b % 4) by (bit_vector);
    assert((b >> 4) & 0x03 == (b / 16) % 4) by (bit_vector);
}

impl Screen {
    pub fn new() -> (r: Self)
        ensures
            r@ == Plane::blank(),
    {
        let r = Screen {
            pixels: Box::new([0u8; PIXEL_COUNT]),
            palette: [0u32; 16],
            border_color: 0,
            h_offset: 0,
            v_offset: 0,
        };
        assert(r@ =~= Plane::blank());
        r
    }

    /// Fills all pixels with `color` and resets the scroll offsets.
    pub fn fill(&mut self, color: u8)
        ensures
            final(self)@ == old(self)@.filled(color),
    {
        let mut i: usize = 0;
        while i < PIXEL_COUNT
            invariant
                i <= PIXEL_COUNT,
                forall|k: int| 0 <= k < i ==> self.pixels@[k] == color,
                self.palette == old(self).palette,
                self.border_color == old(self).border_color,
            decreases PIXEL_COUNT - i,
        {
            self.pixels[i] = color;
            i += 1;
        }
        self.h_offset = 0;
        self.v_offset = 0;
        assert(self@ =~= old(self)@.filled(color));
    }

    /// Paints the tile that `data` describes; with `xor`, onto what is there.
    pub fn tile_block(&mut self, data: &[u8; 16], xor: bool)
        ensures
            final(self)@ == old(self)@.tiled(data@, xor),
    {
        proof {
            lemma_low_bits(data@[0]);
            lemma_low_bits(data@[1]);
            lemma_low_bits(data@[2]);
            lemma_low_bits(data@[3]);
        }
        let color0: u8 = data[0] & 0x0F;
        let color1: u8 = data[1] & 0x0F;
        let tile_row: usize = (data[2] & 0x1F) as usize;
        let tile_col: usize = (data[3] & 0x3F) as usize;
        let base_x: usize = tile_col * TILE_W;
        let base_y: usize = tile_row * TILE_H;
        let ghost before = self@;
        let ghost after = before.tiled(data@, xor);
        if base_x + TILE_W > WIDTH || base_y + TILE_H > HEIGHT {
            return;
        }
        let mut row: usize = 0;
        while row < TILE_H
            invariant
                row <= TILE_H,
                base_x == tile_left(data@),
                base_y == tile_top(data@),
                base_x + TILE_W <= WIDTH,
                base_y + TILE_H <= HEIGHT,
                color0 == data@[0] % 16,
                color1 == data@[1] % 16,
                before == old(self)@,
                after == before.tiled(data@, xor),
                self@ == (Plane { pixels: self@.pixels, ..before }),
                forall|k: int|
                    0 <= k < PIXEL_COUNT ==> #[trigger] self@.pixels[k] == if k / (WIDTH as int)
                        < base_y + row {
                        after.pixels[k]
                    } else {
                        before.pixels[k]
                    },
            decreases TILE_H - row,
        {
            let byte: u8 = data[4 + row];
            let mut col: usize = 0;
            while col < TILE_W
                invariant
                    col <= TILE_W,
                    row < TILE_H,
                    byte == data@[4 + row],
                    base_x == tile_left(data@),
                    base_y == tile_top(data@),
                    base_x + TILE_W <= WIDTH,
                    base_y + TILE_H <= HEIGHT,
                    color0 == data@[0] % 16,
                    color1 == data@[1] % 16,
                    before == old(self)@,
                    after == before.tiled(data@, xor),
                    self@ == (Plane { pixels: self@.pixels, ..before }),
                    forall|k: int|
                        0 <= k < PIXEL_COUNT ==> #[trigger] self@.pixels[k] == if k / (WIDTH as int)
                            < base_y + row || k / (WIDTH as int) == base_y + row && k % (
                        WIDTH as int) < base_x + col {
                            after.pixels[k]
                        } else {
                            before.pixels[k]
                        },
                decreases TILE_W - col,
            {
                let bit: u8 = (byte >> (5 - col)) & 0x01;
                let color: u8 = if bit == 0 {
                    color0
                } else {
                    color1
                };
                let at: usize = (base_y + row) * WIDTH + (base_x + col);
                proof {
                    lemma_position((base_x + col) as int, (base_y + row) as int);
                }
                let px: u8 = self.pixels[at];
                let ghost pixels = self@.pixels;
                self.pixels[at] = if xor {
                    px ^ color
                } else {
                    color
                };
                assert(self@.pixels[at as int] == after.pixels[at as int]);
                assert forall|k: int| 0 <= k < PIXEL_COUNT implies #[trigger] self@.pixels[k]
                    == if k / (WIDTH as int) < base_y + row || k / (WIDTH as int) == base_y + row
                    && k % (WIDTH as int) < base_x + col + 1 {
                    after.pixels[k]
                } else {
                    before.pixels[k]
                } by {
                    if k != at {
                        assert(self@.pixels[k] == pixels[k]);
                        lemma_place(k);
                    }
                }
                col += 1;
            }
            assert forall|k: int| 0 <= k < PIXEL_COUNT implies #[trigger] self@.pixels[k] == if k
                / (WIDTH as int) < base_y + row + 1 {
                after.pixels[k]
            } else {
                before.pixels[k]
            } by {
                lemma_place(k);
            }
            row += 1;
        }
        assert forall|k: int| 0 <= k < PIXEL_COUNT implies self@.pixels[k] == after.pixels[k] by {
            lemma_place(k);
        }
        assert(self@.pixels =~= after.pixels);
        assert(self@ =~= after);
    }

    /// Loads eight palette entries from `base` on.
    pub fn load_clut(&mut self, data: &[u8; 16], base: usize)
        requires
            base <= 8,
        ensures
            final(self)@ == old(self)@.recolored(data@, base as int),
    {
        let ghost before = self@;
        let mut i: usize = 0;
        while i < 8
            invariant
                i <= 8,
                base <= 8,
                before == old(self)@,
                self@ == (Plane { palette: self@.palette, ..before }),
                forall|j: int|
                    0 <= j < 16 ==> #[trigger] self@.palette[j] == if base <= j < base + i {
                        rgb_of(color4_of(data@, j - base))
                    } else {
                        before.palette[j]
                    },
            decreases 8 - i,
        {
            let (r4, g4, b4) = unpack_color4(data, i);
            let r: u32 = (r4 * 17) as u32;
            let g: u32 = (g4 * 17) as u32;
            let b: u32 = (b4 * 17) as u32;
            proof {
                lemma_pack(r, g, b);
            }
            self.palette[base + i] = (r << 16) | (g << 8) | b;
            i += 1;
        }
        assert(self@.palette =~= before.recolored(data@, base as int).palette);
    }

    fn memory_preset(&mut self, p: &Packet)
        ensures
            final(self)@ == old(self)@.filled((p.data@[0] % 16) as u8),
    {
        proof {
            lemma_low_bits(p.data@[0]);
        }
        self.fill(p.data[0] & 0x0F);
    }

    fn border_preset(&mut self, p: &Packet)
        ensures
            final(self)@ == (Plane { border_color: (p.data@[0] % 16) as u8, ..old(self)@ }),
    {
        proof {
            lemma_low_bits(p.data@[0]);
        }
        self.border_color = p.data[0] & 0x0F;
    }

    fn scroll(&mut self, p: &Packet, wrap: bool)
        ensures
            final(self)@ == old(self)@.scrolled(p.data@, wrap),
    {
        proof {
            lemma_low_bits(p.data@[0]);
            lemma_low_bits(p.data@[1]);
            lemma_low_bits(p.data@[2]);
        }
        let h_cmd: u8 = (p.data[1] >> 4) & 0x03;
        let h_off: u8 = p.data[1] & 0x07;
        let v_cmd: u8 = (p.data[2] >> 4) & 0x03;
        let v_off: u8 = p.data[2] & 0x0F;
        let fill: u8 = p.data[0] & 0x0F;

        // The offsets stay within a tile.
        self.h_offset = if h_off < 6 {
            h_off as i8
        } else {
            5
        };
        self.v_offset = if v_off < 12 {
            v_off as i8
        } else {
            11
        };

        if h_cmd == 1 {
            self.scroll_h(6, fill, wrap);
        } else if h_cmd == 2 {
            self.scroll_h(-6, fill, wrap);
        }
        if v_cmd == 1 {
            self.scroll_v(12, fill, wrap);
        } else if v_cmd == 2 {
            self.scroll_v(-12, fill, wrap);
        }
    }

    fn scroll_h(&mut self, delta: isize, fill: u8, wrap: bool)
        requires
            -WIDTH <= delta <= WIDTH,
        ensures
            final(self)@ == old(self)@.moved_h(delta as int, fill, wrap),
    {
        let ghost after = self@.moved_h(delta as int, fill, wrap);
        let mut new: [u8; PIXEL_COUNT] = [0u8; PIXEL_COUNT];
        let mut y: usize = 0;
        while y < HEIGHT
            invariant
                y <= HEIGHT,
                -WIDTH <= delta <= WIDTH,
                after == self@.moved_h(delta as int, fill, wrap),
                forall|k: int| 0 <= k < y * WIDTH ==> #[trigger] new@[k] == after.pixels[k],
            decreases HEIGHT - y,
        {
            let mut x: usize = 0;
            while x < WIDTH
                invariant
                    x <= WIDTH,
                    y < HEIGHT,
                    -WIDTH <= delta <= WIDTH,
                    after == self@.moved_h(delta as int, fill, wrap),
                    forall|k: int| 0 <= k < y * WIDTH + x ==> #[trigger] new@[k] == after.pixels[k],
                decreases WIDTH - x,
            {
                let src_x: usize = shift_back(x, delta, WIDTH);
                let in_vacated: bool = if delta > 0 {
                    x < delta as usize
                } else {
                    x >= (WIDTH as isize + delta) as usize
                };
                proof {
                    lemma_position(x as int, y as int);
                    lemma_position(src_x as int, y as int);
                }
                new[y * WIDTH + x] = if in_vacated && !wrap {
                    fill
                } else {
                    self.pixels[y * WIDTH + src_x]
                };
                x += 1;
            }
            y += 1;
        }
        *self.pixels = new;
        assert(self@.pixels =~= after.pixels);
    }

    fn scroll_v(&mut self, delta: isize, fill: u8, wrap: bool)
        requires
            -HEIGHT <= delta <= HEIGHT,
        ensures
            final(self)@ == old(self)@.moved_v(delta as int, fill, wrap),
    {
        let ghost after = self@.moved_v(delta as int, fill, wrap);
        let mut new: [u8; PIXEL_COUNT] = [0u8; PIXEL_COUNT];
        let mut y: usize = 0;
        while y < HEIGHT
            invariant
                y <= HEIGHT,
                -HEIGHT <= delta <= HEIGHT,
                after == self@.moved_v(delta as int, fill, wrap),
                forall|k: int| 0 <= k < y * WIDTH ==> #[trigger] new@[k] == after.pixels[k],
            decreases HEIGHT - y,
        {
            let src_y: usize = shift_back(y, delta, HEIGHT);
            let in_vacated: bool = if delta > 0 {
                y < delta as usize
            } else {
                y >= (HEIGHT as isize + delta) as usize
            };
            let mut x: usize = 0;
            while x < WIDTH
                invariant
                    x <= WIDTH,
                    y < HEIGHT,
                    src_y < HEIGHT,
                    src_y == (y - delta) % HEIGHT as int,
                    in_vacated <==> !(0 <= y - delta < HEIGHT),
                    after == self@.moved_v(delta as int, fill, wrap),
                    forall|k: int| 0 <= k < y * WIDTH + x ==> #[trigger] new@[k] == after.pixels[k],
                decreases WIDTH - x,
            {
                proof {
                    lemma_position(x as int, y as int);
                    lemma_position(x as int, src_y as int);
                }
                new[y * WIDTH + x] = if in_vacated && !wrap {
                    fill
                } else {
                    self.pixels[src_y * WIDTH + x]
                };
                x += 1;
            }
            y += 1;
        }
        *self.pixels = new;
        assert(self@.pixels =~= after.pixels);
    }

    /// Applies a standard CD+G packet to the plane.
    pub fn apply(&mut self, packet: &Packet)
        ensures
            final(self)@ == old(self)@.after(packet.instruction, packet.data@),
    {
        match packet.instruction {
            Instruction::MemoryPreset => self.memory_preset(packet),
            Instruction::BorderPreset => self.border_preset(packet),
            Instruction::TileBlock => self.tile_block(&packet.data, false),
            Instruction::TileBlockXor => self.tile_block(&packet.data, true),
            Instruction::LoadColorTableLow => self.load_clut(&packet.data, 0),
            Instruction::LoadColorTableHigh => self.load_clut(&packet.data, 8),
            Instruction::ScrollPreset => self.scroll(packet, false),
            Instruction::ScrollCopy => self.scroll(packet, true),
            Instruction::DefineTransparent => {},
        }
    }

    /// The color index shown at a position of the visible area.
    fn shown_index(&self, x: usize, y: usize) -> (index: u8)
        requires
            in_view(x as int, y as int),
        ensures
            index == self@.shown(x as int, y as int),
    {
        let sx: usize = shift_back(x, self.h_offset as isize, WIDTH);
        let sy: usize = shift_back(y, self.v_offset as isize, HEIGHT);
        proof {
            lemma_position(sx as int, sy as int);
        }
        self.pixels[sy * WIDTH + sx]
    }

    /// Renders the plane to a 0x00RRGGBB framebuffer, applying the scroll
    /// offsets. The border zone always shows `border_color`; the pixels there
    /// are kept, so that they scroll into the interior.
    pub fn render(&self, out: &mut [u32])
        requires
            old(out)@.len() >= PIXEL_COUNT,
            self@.displayable(),
        ensures
            final(out)@ == self@.frame() + old(out)@.skip(PIXEL_COUNT as int),
    {
        let border_rgb: u32 = self.palette[self.border_color as usize];
        let ghost frame = self@.frame();
        let mut y: usize = 0;
        while y < HEIGHT
            invariant
                y <= HEIGHT,
                self@.displayable(),
                frame == self@.frame(),
                border_rgb == self@.palette[self@.border_color as int],
                out@.len() == old(out)@.len() >= PIXEL_COUNT,
                forall|k: int| 0 <= k < y * WIDTH ==> #[trigger] out@[k] == frame[k],
                forall|k: int| PIXEL_COUNT <= k < out@.len() ==> #[trigger] out@[k] == old(out)@[k],
            decreases HEIGHT - y,
        {
            let mut x: usize = 0;
            while x < WIDTH
                invariant
                    x <= WIDTH,
                    y < HEIGHT,
                    self@.displayable(),
                    frame == self@.frame(),
                    border_rgb == self@.palette[self@.border_color as int],
                    out@.len() == old(out)@.len() >= PIXEL_COUNT,
                    forall|k: int| 0 <= k < y * WIDTH + x ==> #[trigger] out@[k] == frame[k],
                    forall|k: int|
                        PIXEL_COUNT <= k < out@.len() ==> #[trigger] out@[k] == old(out)@[k],
                decreases WIDTH - x,
            {
                proof {
                    lemma_position(x as int, y as int);
                }
                if on_border(x, y) {
                    out[y * WIDTH + x] = border_rgb;
                } else {
                    let idx: u8 = self.shown_index(x, y);
                    out[y * WIDTH + x] = self.palette[idx as usize];
                }
                x += 1;
            }
            y += 1;
        }
        assert(out@ =~= frame + old(out)@.skip(PIXEL_COUNT as int));
    }
}

/// Whether a screen position lies on the border.
fn on_border(x: usize, y: usize) -> (r: bool)
    requires
        x < WIDTH,
        y < HEIGHT,
    ensures
        r == !in_view(x as int, y as int),
{
    y < BORDER_Y || y >= HEIGHT - BORDER_Y || x < BORDER_X || x >= WIDTH - BORDER_X
}

/// The position from which `delta` steps forward lead to `pos`, on a circle.
fn shift_back(pos: usize, delta: isize, size: usize) -> (r: usize)
    requires
        pos < size <= 300,
        -size <= delta <= size,
    ensures
        r < size,
        r == (pos - delta) % size as int,
{
    let d: isize = pos as isize - delta;
    if d < 0 {
        proof {
            vstd::arithmetic::div_mod::lemma_mod_add_multiples_vanish(d as int, size as int);
            vstd::arithmetic::div_mod::lemma_small_mod((d + size) as nat, size as nat);
        }
        (d + size as isize) as usize
    } else if d >= size as isize {
        proof {
            vstd::arithmetic::div_mod::lemma_mod_sub_multiples_vanish(d as int, size as int);
            vstd::arithmetic::div_mod::lemma_small_mod((d - size) as nat, size as nat);
        }
        (d - size as isize) as usize
    } else {
        proof {
            vstd::arithmetic::div_mod::lemma_small_mod(d as nat, size as nat);
        }
        d as usize
    }
}

/// The channels of the `i`-th 4-bit color of a color table packet.
fn unpack_color4(data: &[u8; 16], i: usize) -> (c: (u8, u8, u8))
    requires
        i < 8,
    ensures
        color4_of(data@, i as int) == (Rgb { r: c.0 as int, g: c.1 as int, b: c.2 as int }),
        c.0 < 16,
        c.1 < 16,
        c.2 < 16,
{
    let high: u8 = data[i * 2];
    let low: u8 = data[i * 2 + 1];
    let hi: u8 = high & 0x3F;
    let lo: u8 = low & 0x3F;
    let r4: u8 = (hi >> 2) & 0x0F;
    let g4: u8 = ((hi & 0x03) << 2) | ((lo >> 4) & 0x03);
    let b4: u8 = lo & 0x0F;
    assert(((high & 0x3F) >> 2) & 0x0F == (high % 64) / 4) by (bit_vector);
    assert((((high & 0x3F) & 0x03) << 2) | (((low & 0x3F) >> 4) & 0x03) == high % 4 * 4 + (low
        / 16) % 4) by (bit_vector);
    assert((low & 0x3F) & 0x0F == low % 16) by (bit_vector);
    (r4, g4, b4)
}

/// Shifting and joining 8-bit channels packs them.
proof fn lemma_pack(r: u32, g: u32, b: u32)
    requires
        r < 256,
        g < 256,
        b < 256,
    ensures
        (r << 16) | (g << 8) | b == pack(r as int, g as int, b as int),
{
    assert((r << 16) | (g << 8) | b == r * 0x1_0000 + g * 0x100 + b) by (bit_vector)
        requires
            r < 256,
            g < 256,
            b < 256,
    ;
}

// ── The CD+EG screen ────────────────────────────────────────────────────────

#[derive(Debug, Clone, Copy, PartialEq, Eq, Structural)]
pub enum WriteMode {
    NoWrite,
    Primary,
    Secondary,
    Both,
}

#[derive(Debug, Clone, Copy, PartialEq, Eq, Structural)]
pub enum DisplayMode {
    /// 256 colors: `clut256[primary_index | (secondary_index << 4)]`.
    Color256,
    /// Only the primary plane, with its 16-color palette.
    Primary,
    /// Only the secondary plane, with its 16-color palette.
    Secondary,
    /// The colors of both planes, mixed per pixel.
    Mix,
}

/// A color of the 256-entry CLUT with 6 bits per channel. The high 4 bits are
/// loaded by `LoadClut256High`, the low 2 bits by `LoadClut256Low`.
#[derive(Clone, Copy)]
pub struct CdegColor {
    pub r: u8,
    pub g: u8,
    pub b: u8,
}

/// CD+EG graphics state: two independent planes, mode registers, and an
/// extended 256-entry CLUT. When `cdeg_enabled` is false, item 2 packets are
/// ignored and the state behaves as a standard CD+G decoder's.
pub struct CdegScreen {
    pub primary: Screen,
    pub secondary: Screen,
    pub write_mode: WriteMode,
    pub display_mode: DisplayMode,
    pub cdeg_enabled: bool,
    /// Which of the 16 tile channels are drawn.
    pub active_channels: [bool; 16],
    pub clut256: Box<[CdegColor; 256]>,
}

/// Mathematical state of a [`CdegScreen`].
#[verifier::ext_equal]
pub struct Composite {
    pub primary: Plane,
    pub secondary: Plane,
    pub write_mode: WriteMode,
    pub display_mode: DisplayMode,
    pub cdeg_enabled: bool,
    pub active_channels: Seq<bool>,
    pub clut: Seq<Rgb>,
}

impl View for CdegScreen {
    type V = Composite;

    open spec fn view(&self) -> Composite {
        Composite {
            primary: self.primary@,
            secondary: self.secondary@,
            write_mode: self.write_mode,
            display_mode: self.display_mode,
            cdeg_enabled: self.cdeg_enabled,
            active_channels: self.active_channels@,
            clut: self.clut(),
        }
    }
}

impl View for CdegColor {
    type V = Rgb;

    open spec fn view(&self) -> Rgb {
        Rgb { r: self.r as int, g: self.g as int, b: self.b as int }
    }
}

impl CdegColor {
    fn black() -> (c: Self)
        ensures
            c@ == (Rgb { r: 0, g: 0, b: 0 }),
    {
        CdegColor { r: 0, g: 0, b: 0 }
    }

    /// The color in packed 0x00RRGGBB format.
    pub fn to_rgb32(self) -> (color: u32)
        ensures
            color == rgb6_of(self@),
    {
        let (r6, g6, b6) = (self.r, self.g, self.b);
        assert(r6 << 2 == r6 % 64 * 4) by (bit_vector);
        assert(g6 << 2 == g6 % 64 * 4) by (bit_vector);
        assert(b6 << 2 == b6 % 64 * 4) by (bit_vector);
        let r: u32 = (r6 << 2) as u32;
        let g: u32 = (g6 << 2) as u32;
        let b: u32 = (b6 << 2) as u32;
        proof {
            lemma_pack(r, g, b);
        }
        (r << 16) | (g << 8) | b
    }
}

/// A packed color from 6-bit channels, spread over the 8-bit range.
pub open spec fn rgb6_of(c: Rgb) -> u32 {
    pack(c.r % 64 * 4, c.g % 64 * 4, c.b % 64 * 4)
}

/// One channel of a mixed color: the 4-bit values are added and scaled to the
/// 8-bit range, with a ceiling.
pub open spec fn mix(p8: int, s8: int) -> int {
    let sum = (p8 / 17 + s8 / 17) * 16;
    if sum < 255 {
        sum
    } else {
        255
    }
}

pub open spec fn red(c: u32) -> int {
    ((c / 0x1_0000) % 256) as int
}

pub open spec fn green(c: u32) -> int {
    ((c / 0x100) % 256) as int
}

pub open spec fn blue(c: u32) -> int {
    (c % 256) as int
}

/// The mix of two packed colors.
pub open spec fn mix_colors(p: u32, s: u32) -> u32 {
    pack(mix(red(p), red(s)), mix(green(p), green(s)), mix(blue(p), blue(s)))
}

/// The CLUT entry for a pair of color indices: the secondary index supplies
/// the high four bits.
pub open spec fn clut_index(p: u8, s: u8) -> int {
    (p | (s << 4)) as int
}

/// Whether writes reach the primary plane outside of 256-color mode.
pub open spec fn writes_primary(mode: WriteMode) -> bool {
    mode == WriteMode::Primary || mode == WriteMode::Both
}

/// Whether writes reach the secondary plane outside of 256-color mode.
pub open spec fn writes_secondary(mode: WriteMode) -> bool {
    mode == WriteMode::Secondary || mode == WriteMode::Both
}

/// The write mode that a memory control byte selects.
pub open spec fn write_mode_of(control: u8) -> WriteMode {
    match control % 4 {
        0 => WriteMode::NoWrite,
        1 => WriteMode::Primary,
        2 => WriteMode::Secondary,
        _ => WriteMode::Both,
    }
}

/// The display mode that a memory control byte selects.
pub open spec fn display_mode_of(control: u8) -> DisplayMode {
    match (control / 4) % 4 {
        0 => DisplayMode::Color256,
        1 => DisplayMode::Primary,
        2 => DisplayMode::Secondary,
        _ => DisplayMode::Mix,
    }
}

impl Composite {
    /// The initial state: blank planes, only the primary written and shown,
    /// channels 0 and 1 active.
    pub open spec fn blank(cdeg_enabled: bool) -> Composite {
        Composite {
            primary: Plane::blank(),
            secondary: Plane::blank(),
            write_mode: WriteMode::Primary,
            display_mode: DisplayMode::Primary,
            cdeg_enabled,
            active_channels: Seq::new(16, |i: int| i < 2),
            clut: Seq::new(256, |i: int| Rgb { r: 0, g: 0, b: 0 }),
        }
    }

    /// The invariant of a screen that packets have drawn.
    pub open spec fn wf(self) -> bool {
        &&& self.primary.wf()
        &&& self.secondary.wf()
        &&& self.active_channels.len() == 16
        &&& self.clut.len() == 256
        &&& forall|i: int|
            0 <= i < 256 ==> {
                let c = #[trigger] self.clut[i];
                0 <= c.r < 64 && 0 <= c.g < 64 && 0 <= c.b < 64
            }
    }

    /// Whether every color that rendering looks up exists.
    pub open spec fn displayable(self) -> bool {
        match self.display_mode {
            DisplayMode::Primary => self.primary.displayable(),
            DisplayMode::Secondary => self.secondary.displayable(),
            DisplayMode::Color256 => self.secondary.displayable(),
            DisplayMode::Mix => self.primary.displayable() && self.secondary.displayable(),
        }
    }

    /// The color shown at a screen position.
    pub open spec fn color_at(self, x: int, y: int) -> u32 {
        match self.display_mode {
            DisplayMode::Primary => self.primary.color_at(x, y),
            DisplayMode::Secondary => self.secondary.color_at(x, y),
            DisplayMode::Color256 => rgb6_of(
                self.clut[clut_index(self.primary.index_at(x, y), self.secondary.index_at(x, y))],
            ),
            DisplayMode::Mix => mix_colors(
                self.primary.color_at(x, y),
                self.secondary.color_at(x, y),
            ),
        }
    }

    /// The rendered frame.
    pub open spec fn frame(self) -> Seq<u32> {
        picture(|x: int, y: int| self.color_at(x, y))
    }

    /// New mode registers. In 256-color mode only writing to none or to both
    /// planes is valid; an invalid combination changes nothing.
    pub open spec fn controlled(self, control: u8) -> Composite {
        let write_mode = write_mode_of(control);
        let display_mode = display_mode_of(control);
        if display_mode == DisplayMode::Color256 && (write_mode == WriteMode::Primary || write_mode
            == WriteMode::Secondary) {
            self
        } else {
            Composite { write_mode, display_mode, ..self }
        }
    }

    /// The high four bits of eight CLUT entries from `start` on replaced.
    pub open spec fn clut_high(self, start: int, data: Seq<u8>) -> Composite {
        Composite {
            clut: Seq::new(
                256,
                |i: int|
                    if start <= i < start + 8 {
                        let high = color4_of(data, i - start);
                        let c = self.clut[i];
                        Rgb {
                            r: high.r * 4 + c.r % 4,
                            g: high.g * 4 + c.g % 4,
                            b: high.b * 4 + c.b % 4,
                        }
                    } else {
                        self.clut[i]
                    },
            ),
            ..self
        }
    }

    /// The low two bits of sixteen CLUT entries from `start` on replaced. Each
    /// data byte is packed as `rrggbb`.
    pub open spec fn clut_low(self, start: int, data: Seq<u8>) -> Composite {
        Composite {
            clut: Seq::new(
                256,
                |i: int|
                    if start <= i < start + 16 {
                        let low = data[i - start];
                        let c = self.clut[i];
                        Rgb {
                            r: (c.r % 64) / 4 * 4 + (low / 16) % 4,
                            g: (c.g % 64) / 4 * 4 + (low / 4) % 4,
                            b: (c.b % 64) / 4 * 4 + low % 4,
                        }
                    } else {
                        self.clut[i]
                    },
            ),
            ..self
        }
    }

    /// The screen after an item 1 packet.
    pub open spec fn after_item1(self, instruction: Instruction, data: Seq<u8>) -> Composite {
        let tile = instruction == Instruction::TileBlock || instruction
            == Instruction::TileBlockXor;
        if tile && !self.active_channels[channel_of(data)] {
            self
        } else if self.display_mode == DisplayMode::Color256 && self.write_mode
            == WriteMode::Both {
            match instruction {
                Instruction::MemoryPreset => Composite {
                    primary: self.primary.after(instruction, data),
                    secondary: self.secondary.filled(0),
                    ..self
                },
                Instruction::BorderPreset => Composite {
                    primary: self.primary.after(instruction, data),
                    secondary: Plane { border_color: 0, ..self.secondary },
                    ..self
                },
                Instruction::TileBlock | Instruction::TileBlockXor => Composite {
                    primary: self.primary.after(instruction, data),
                    ..self
                },
                _ => self,
            }
        } else {
            Composite {
                primary: if writes_primary(self.write_mode) {
                    self.primary.after(instruction, data)
                } else {
                    self.primary
                },
                secondary: if writes_secondary(self.write_mode) {
                    self.secondary.after(instruction, data)
                } else {
                    self.secondary
                },
                ..self
            }
        }
    }

    /// The screen after an item 2 packet. Memory control always acts. Outside
    /// of 256-color mode, the first two CLUT commands load the 16-color
    /// palettes, which discs use for dissolves, and the rest is ignored.
    pub open spec fn after_item2(self, instruction: CdegInstruction, data: Seq<u8>) -> Composite {
        let color256 = self.display_mode == DisplayMode::Color256;
        match instruction {
            CdegInstruction::MemoryControl => self.controlled(data[0]),
            CdegInstruction::SetFont => if color256 && self.active_channels[channel_of(data)] {
                Composite { secondary: self.secondary.tiled(data, false), ..self }
            } else {
                self
            },
            CdegInstruction::XorFont => if color256 && self.active_channels[channel_of(data)] {
                Composite { secondary: self.secondary.tiled(data, true), ..self }
            } else {
                self
            },
            CdegInstruction::LoadClut256High { start } => if color256 {
                self.clut_high(start as int, data)
            } else if start == 0 || start == 8 {
                Composite {
                    primary: if writes_primary(self.write_mode) {
                        self.primary.recolored(data, start as int)
                    } else {
                        self.primary
                    },
                    secondary: if writes_secondary(self.write_mode) {
                        self.secondary.recolored(data, start as int)
                    } else {
                        self.secondary
                    },
                    ..self
                }
            } else {
                self
            },
            CdegInstruction::LoadClut256Low { start } => if color256 {
                self.clut_low(start as int, data)
            } else {
                self
            },
        }
    }

    /// The screen after a packet.
    pub open spec fn after(self, packet: PacketView) -> Composite {
        match packet {
            PacketView::Item1(instruction, data) => self.after_item1(instruction, data),
            PacketView::Item2(instruction, data) => if self.cdeg_enabled {
                self.after_item2(instruction, data)
            } else {
                self
            },
        }
    }
}

impl CdegScreen {
    /// The 256-entry CLUT.
    pub open spec fn clut(&self) -> Seq<Rgb> {
        self.clut256@.map_values(|c: CdegColor| c@)
    }

    pub fn new(cdeg_enabled: bool) -> (r: Self)
        ensures
            r@ == Composite::blank(cdeg_enabled),
    {
        let mut active_channels: [bool; 16] = [false; 16];
        active_channels[0] = true;
        active_channels[1] = true;
        let black: CdegColor = CdegColor::black();
        let r = CdegScreen {
            primary: Screen::new(),
            secondary: Screen::new(),
            write_mode: WriteMode::Primary,
            display_mode: DisplayMode::Primary,
            cdeg_enabled,
            active_channels,
            clut256: Box::new([black; 256]),
        };
        assert(r@.clut =~= Composite::blank(cdeg_enabled).clut);
        assert(r@.active_channels =~= Composite::blank(cdeg_enabled).active_channels);
        r
    }

    fn memory_control(&mut self, data: &[u8; 16])
        ensures
            final(self)@ == old(self)@.controlled(data@[0]),
    {
        let mode: u8 = data[0];
        let write: u8 = mode & 0x03;
        let display: u8 = (mode >> 2) & 0x03;
        assert(mode & 0x03 == mode % 4) by (bit_vector);
        assert((mode >> 2) & 0x03 == (mode / 4) % 4) by (bit_vector);
        if display == 0 && (write == 1 || write == 2) {
            return;
        }
        self.write_mode = match write {
            0 => WriteMode::NoWrite,
            1 => WriteMode::Primary,
            2 => WriteMode::Secondary,
            _ => WriteMode::Both,
        };
        self.display_mode = match display {
            0 => DisplayMode::Color256,
            1 => DisplayMode::Primary,
            2 => DisplayMode::Secondary,
            _ => DisplayMode::Mix,
        };
        assert(self@ =~= old(self)@.controlled(data@[0]));
    }

    /// Loads the high 4 bits of 8 consecutive CLUT entries.
    fn load_clut256_high(&mut self, start: usize, data: &[u8; 16])
        requires
            start < 256,
        ensures
            final(self)@ == old(self)@.clut_high(start as int, data@),
    {
        let ghost before = self@;
        let ghost after = before.clut_high(start as int, data@);
        let mut i: usize = 0;
        while i < 8 && start + i < 256
            invariant
                i <= 8,
                start < 256,
                before == old(self)@,
                after == before.clut_high(start as int, data@),
                self@ == (Composite { clut: self.clut(), ..before }),
                forall|j: int|
                    0 <= j < 256 ==> #[trigger] self.clut()[j] == if j < start + i {
                        after.clut[j]
                    } else {
                        before.clut[j]
                    },
            decreases 8 - i,
        {
            let idx: usize = start + i;
            let (r4, g4, b4) = unpack_color4(data, i);
            let c: CdegColor = self.clut256[idx];
            assert(self.clut()[idx as int] == c@);
            let ghost clut = self.clut();
            self.clut256[idx] = CdegColor {
                r: put_high(c.r, r4),
                g: put_high(c.g, g4),
                b: put_high(c.b, b4),
            };
            assert(self.clut() =~= clut.update(idx as int, after.clut[idx as int]));
            i += 1;
        }
        assert(self.clut() =~= after.clut);
    }

    /// Loads the low 2 bits of 16 consecutive CLUT entries.
    fn load_clut256_low(&mut self, start: usize, data: &[u8; 16])
        requires
            start < 256,
        ensures
            final(self)@ == old(self)@.clut_low(start as int, data@),
    {
        let ghost before = self@;
        let ghost after = before.clut_low(start as int, data@);
        let mut i: usize = 0;
        while i < 16 && start + i < 256
            invariant
                i <= 16,
                start < 256,
                before == old(self)@,
                after == before.clut_low(start as int, data@),
                self@ == (Composite { clut: self.clut(), ..before }),
                forall|j: int|
                    0 <= j < 256 ==> #[trigger] self.clut()[j] == if j < start + i {
                        after.clut[j]
                    } else {
                        before.clut[j]
                    },
            decreases 16 - i,
        {
            let idx: usize = start + i;
            let byte: u8 = data[i];
            let c: CdegColor = self.clut256[idx];
            assert(self.clut()[idx as int] == c@);
            let ghost clut = self.clut();
            assert((byte >> 4) & 0x03 == (byte / 16) % 4) by (bit_vector);
            assert((byte >> 2) & 0x03 == (byte / 4) % 4) by (bit_vector);
            assert(byte & 0x03 == byte % 4) by (bit_vector);
            self.clut256[idx] = CdegColor {
                r: put_low(c.r, (byte >> 4) & 0x03),
                g: put_low(c.g, (byte >> 2) & 0x03),
                b: put_low(c.b, byte & 0x03),
            };
            assert(self.clut() =~= clut.update(idx as int, after.clut[idx as int]));
            i += 1;
        }
        assert(self.clut() =~= after.clut);
    }

    /// Applies a packet to the graphics state.
    pub fn apply(&mut self, pkt: &AnyPacket)
        ensures
            final(self)@ == old(self)@.after(pkt@),
    {
        match pkt {
            AnyPacket::Item1(p) => self.apply_item1(p),
            AnyPacket::Item2(p) => {
                if self.cdeg_enabled {
                    self.apply_item2(p);
                }
            },
        }
    }

    fn apply_item1(&mut self, pkt: &Packet)
        ensures
            final(self)@ == old(self)@.after_item1(pkt.instruction, pkt.data@),
    {
        if pkt.instruction == Instruction::TileBlock || pkt.instruction
            == Instruction::TileBlockXor {
            if !self.active_channels[tile_channel(&pkt.data)] {
                return;
            }
        }
        if self.display_mode == DisplayMode::Color256 {
            // The primary plane gets normal writes, the secondary only presets.
            match self.write_mode {
                WriteMode::Both => {
                    match pkt.instruction {
                        Instruction::MemoryPreset => {
                            self.primary.apply(pkt);
                            self.secondary.fill(0);
                        },
                        Instruction::BorderPreset => {
                            self.primary.apply(pkt);
                            self.secondary.border_color = 0;
                        },
                        Instruction::TileBlock | Instruction::TileBlockXor => {
                            self.primary.apply(pkt);
                        },
                        _ => {},
                    }
                },
                WriteMode::NoWrite => {},
                // These two do not occur in 256-color mode on a regular disc.
                WriteMode::Primary => self.primary.apply(pkt),
                WriteMode::Secondary => self.secondary.apply(pkt),
            }
        } else {
            if self.write_mode == WriteMode::Primary || self.write_mode == WriteMode::Both {
                self.primary.apply(pkt);
            }
            if self.write_mode == WriteMode::Secondary || self.write_mode == WriteMode::Both {
                self.secondary.apply(pkt);
            }
        }
    }

    fn apply_item2(&mut self, pkt: &CdegPacket)
        ensures
            final(self)@ == old(self)@.after_item2(pkt.instruction, pkt.data@),
    {
        let is_256color: bool = self.display_mode == DisplayMode::Color256;
        match pkt.instruction {
            CdegInstruction::MemoryControl => self.memory_control(&pkt.data),
            CdegInstruction::SetFont => {
                if is_256color && self.active_channels[tile_channel(&pkt.data)] {
                    self.secondary.tile_block(&pkt.data, false);
                }
            },
            CdegInstruction::XorFont => {
                if is_256color && self.active_channels[tile_channel(&pkt.data)] {
                    self.secondary.tile_block(&pkt.data, true);
                }
            },
            CdegInstruction::LoadClut256High { start } => {
                if is_256color {
                    self.load_clut256_high(start as usize, &pkt.data);
                } else if start == 0 || start == 8 {
                    // Instructions 16 and 17, which CD+G decoders ignore, fade
                    // the 16-color palettes.
                    let base: usize = start as usize;
                    if self.write_mode == WriteMode::Primary || self.write_mode
                        == WriteMode::Both {
                        self.primary.load_clut(&pkt.data, base);
                    }
                    if self.write_mode == WriteMode::Secondary || self.write_mode
                        == WriteMode::Both {
                        self.secondary.load_clut(&pkt.data, base);
                    }
                }
            },
            CdegInstruction::LoadClut256Low { start } => {
                if is_256color {
                    self.load_clut256_low(start as usize, &pkt.data);
                }
            },
        }
    }

    /// Renders to a 0x00RRGGBB framebuffer according to the display mode.
    pub fn render(&self, out: &mut [u32])
        requires
            old(out)@.len() >= PIXEL_COUNT,
            self@.displayable(),
        ensures
            final(out)@ == self@.frame() + old(out)@.skip(PIXEL_COUNT as int),
    {
        let ghost frame = self@.frame();
        match self.display_mode {
            DisplayMode::Primary => {
                self.primary.render(out);
                assert(frame =~= self@.primary.frame());
            },
            DisplayMode::Secondary => {
                self.secondary.render(out);
                assert(frame =~= self@.secondary.frame());
            },
            DisplayMode::Color256 => self.render_256color(out),
            DisplayMode::Mix => self.render_mix(out),
        }
    }

    fn render_256color(&self, out: &mut [u32])
        requires
            old(out)@.len() >= PIXEL_COUNT,
            self@.display_mode == DisplayMode::Color256,
            self@.displayable(),
        ensures
            final(out)@ == self@.frame() + old(out)@.skip(PIXEL_COUNT as int),
    {
        let border_rgb: u32 = self.clut_color(
            self.primary.border_color,
            self.secondary.border_color,
        );
        let ghost frame = self@.frame();
        let mut y: usize = 0;
        while y < HEIGHT
            invariant
                y <= HEIGHT,
                self@.display_mode == DisplayMode::Color256,
                self@.displayable(),
                frame == self@.frame(),
                border_rgb == rgb6_of(
                    self@.clut[clut_index(self@.primary.border_color, self@.secondary.border_color)],
                ),
                out@.len() == old(out)@.len() >= PIXEL_COUNT,
                forall|k: int| 0 <= k < y * WIDTH ==> #[trigger] out@[k] == frame[k],
                forall|k: int| PIXEL_COUNT <= k < out@.len() ==> #[trigger] out@[k] == old(out)@[k],
            decreases HEIGHT - y,
        {
            let mut x: usize = 0;
            while x < WIDTH
                invariant
                    x <= WIDTH,
                    y < HEIGHT,
                    self@.display_mode == DisplayMode::Color256,
                    self@.displayable(),
                    frame == self@.frame(),
                    border_rgb == rgb6_of(
                        self@.clut[clut_index(
                            self@.primary.border_color,
                            self@.secondary.border_color,
                        )],
                    ),
                    out@.len() == old(out)@.len() >= PIXEL_COUNT,
                    forall|k: int| 0 <= k < y * WIDTH + x ==> #[trigger] out@[k] == frame[k],
                    forall|k: int|
                        PIXEL_COUNT <= k < out@.len() ==> #[trigger] out@[k] == old(out)@[k],
                decreases WIDTH - x,
            {
                proof {
                    lemma_position(x as int, y as int);
                }
                let color: u32 = if on_border(x, y) {
                    border_rgb
                } else {
                    let p_idx: u8 = self.primary.shown_index(x, y);
                    let s_idx: u8 = self.secondary.shown_index(x, y);
                    self.clut_color(p_idx, s_idx)
                };
                out[y * WIDTH + x] = color;
                x += 1;
            }
            y += 1;
        }
        assert(out@ =~= frame + old(out)@.skip(PIXEL_COUNT as int));
    }

    /// The CLUT color for a pair of color indices.
    fn clut_color(&self, p: u8, s: u8) -> (color: u32)
        requires
            s < 16,
        ensures
            color == rgb6_of(self@.clut[clut_index(p, s)]),
    {
        assert((p as usize) | ((s as usize) << 4) == (p | (s << 4)) as usize) by (bit_vector)
            requires
                s < 16,
        ;
        self.clut256[p as usize | ((s as usize) << 4)].to_rgb32()
    }

    fn render_mix(&self, out: &mut [u32])
        requires
            old(out)@.len() >= PIXEL_COUNT,
            self@.display_mode == DisplayMode::Mix,
            self@.displayable(),
        ensures
            final(out)@ == self@.frame() + old(out)@.skip(PIXEL_COUNT as int),
    {
        let border_rgb: u32 = mix_rgb(
            self.primary.palette[self.primary.border_color as usize],
            self.secondary.palette[self.secondary.border_color as usize],
        );
        let ghost frame = self@.frame();
        let mut y: usize = 0;
        while y < HEIGHT
            invariant
                y <= HEIGHT,
                self@.display_mode == DisplayMode::Mix,
                self@.displayable(),
                frame == self@.frame(),
                border_rgb == mix_colors(
                    self@.primary.palette[self@.primary.border_color as int],
                    self@.secondary.palette[self@.secondary.border_color as int],
                ),
                out@.len() == old(out)@.len() >= PIXEL_COUNT,
                forall|k: int| 0 <= k < y * WIDTH ==> #[trigger] out@[k] == frame[k],
                forall|k: int| PIXEL_COUNT <= k < out@.len() ==> #[trigger] out@[k] == old(out)@[k],
            decreases HEIGHT - y,
        {
            let mut x: usize = 0;
            while x < WIDTH
                invariant
                    x <= WIDTH,
                    y < HEIGHT,
                    self@.display_mode == DisplayMode::Mix,
                    self@.displayable(),
                    frame == self@.frame(),
                    border_rgb == mix_colors(
                        self@.primary.palette[self@.primary.border_color as int],
                        self@.secondary.palette[self@.secondary.border_color as int],
                    ),
                    out@.len() == old(out)@.len() >= PIXEL_COUNT,
                    forall|k: int| 0 <= k < y * WIDTH + x ==> #[trigger] out@[k] == frame[k],
                    forall|k: int|
                        PIXEL_COUNT <= k < out@.len() ==> #[trigger] out@[k] == old(out)@[k],
                decreases WIDTH - x,
            {
                proof {
                    lemma_position(x as int, y as int);
                }
                let color: u32 = if on_border(x, y) {
                    border_rgb
                } else {
                    let p_idx: u8 = self.primary.shown_index(x, y);
                    let s_idx: u8 = self.secondary.shown_index(x, y);
                    mix_rgb(
                        self.primary.palette[p_idx as usize],
                        self.secondary.palette[s_idx as usize],
                    )
                };
                out[y * WIDTH + x] = color;
                x += 1;
            }
            y += 1;
        }
        assert(out@ =~= frame + old(out)@.skip(PIXEL_COUNT as int));
    }
}

/// The red, green and blue channels of a packed color.
pub fn channels(c: u32) -> (rgb: (u8, u8, u8))
    ensures
        rgb.0 == red(c),
        rgb.1 == green(c),
        rgb.2 == blue(c),
{
    assert((c >> 16) & 0xFF == (c / 0x1_0000) % 256) by (bit_vector);
    assert((c >> 8) & 0xFF == (c / 0x100) % 256) by (bit_vector);
    assert(c & 0xFF == c % 256) by (bit_vector);
    (((c >> 16) & 0xFF) as u8, ((c >> 8) & 0xFF) as u8, (c & 0xFF) as u8)
}

/// One channel of the mix of two colors.
fn mix_channel(p8: u8, s8: u8) -> (m: u32)
    ensures
        m == mix(p8 as int, s8 as int),
{
    let sum: u32 = (p8 as u32 / 17 + s8 as u32 / 17) * 16;
    if sum < 255 {
        sum
    } else {
        255
    }
}

/// The mix of two packed colors.
fn mix_rgb(p: u32, s: u32) -> (color: u32)
    ensures
        color == mix_colors(p, s),
{
    let (pr, pg, pb) = channels(p);
    let (sr, sg, sb) = channels(s);
    let r: u32 = mix_channel(pr, sr);
    let g: u32 = mix_channel(pg, sg);
    let b: u32 = mix_channel(pb, sb);
    proof {
        lemma_pack(r, g, b);
    }
    (r << 16) | (g << 8) | b
}

/// Places a 4-bit value into the upper 4 bits of a 6-bit channel.
fn put_high(channel: u8, high: u8) -> (r: u8)
    requires
        high < 16,
    ensures
        r == high * 4 + channel % 4,
{
    assert((channel & 0x03) | (high << 2) == high * 4 + channel % 4) by (bit_vector)
        requires
            high < 16,
    ;
    (channel & 0x03) | (high << 2)
}

/// Places a 2-bit value into the lower 2 bits of a 6-bit channel.
fn put_low(channel: u8, low: u8) -> (r: u8)
    requires
        low < 4,
    ensures
        r == (channel % 64) / 4 * 4 + low,
{
    assert((channel & 0x3C) | low == (channel % 64) / 4 * 4 + low) by (bit_vector)
        requires
            low < 4,
    ;
    (channel & 0x3C) | low
}

} // verus!
