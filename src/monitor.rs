use vstd::prelude::*;
use vstd::string::StringExecFns;

use crate::processor::Processor;
use crate::register::Register;
use crate::state::add_word;

verus! {

/// The built-in font: two words for each of 128 glyphs, four columns of
/// eight pixels, leftmost column in the high byte of the first word.
pub const DEFAULT_FONT: [u16; 256] = [
    0x000f, 0x0808, 0x080f, 0x0808, 0x08f8, 0x0808, 0x00ff, 0x0808, 0x0808, 0x0808, 0x08ff, 0x0808,
    0x00ff, 0x1414, 0xff00, 0xff08, 0x1f10, 0x1714, 0xfc04, 0xf414, 0x1710, 0x1714, 0xf404, 0xf414,
    0xff00, 0xf714, 0x1414, 0x1414, 0xf700, 0xf714, 0x1417, 0x1414, 0x0f08, 0x0f08, 0x14f4, 0x1414,
    0xf808, 0xf808, 0x0f08, 0x0f08, 0x001f, 0x1414, 0x00fc, 0x1414, 0xf808, 0xf808, 0xff08, 0xff08,
    0x14ff, 0x1414, 0x080f, 0x0000, 0x00f8, 0x0808, 0xffff, 0xffff, 0xf0f0, 0xf0f0, 0xffff, 0x0000,
    0x0000, 0xffff, 0x0f0f, 0x0f0f, 0x0000, 0x0000, 0x005f, 0x0000, 0x0300, 0x0300, 0x3e14, 0x3e00,
    0x266b, 0x3200, 0x611c, 0x4300, 0x3629, 0x7650, 0x0002, 0x0100, 0x1c22, 0x4100, 0x4122, 0x1c00,
    0x2a1c, 0x2a00, 0x083e, 0x0800, 0x4020, 0x0000, 0x0808, 0x0800, 0x0040, 0x0000, 0x601c, 0x0300,
    0x3e41, 0x3e00, 0x427f, 0x4000, 0x6259, 0x4600, 0x2249, 0x3600, 0x0f08, 0x7f00, 0x2745, 0x3900,
    0x3e49, 0x3200, 0x6119, 0x0700, 0x3649, 0x3600, 0x2649, 0x3e00, 0x0024, 0x0000, 0x4024, 0x0000,
    0x0814, 0x2241, 0x1414, 0x1400, 0x4122, 0x1408, 0x0259, 0x0600, 0x3e59, 0x5e00, 0x7e09, 0x7e00,
    0x7f49, 0x3600, 0x3e41, 0x2200, 0x7f41, 0x3e00, 0x7f49, 0x4100, 0x7f09, 0x0100, 0x3e49, 0x3a00,
    0x7f08, 0x7f00, 0x417f, 0x4100, 0x2040, 0x3f00, 0x7f0c, 0x7300, 0x7f40, 0x4000, 0x7f06, 0x7f00,
    0x7f01, 0x7e00, 0x3e41, 0x3e00, 0x7f09, 0x0600, 0x3e41, 0xbe00, 0x7f09, 0x7600, 0x2649, 0x3200,
    0x017f, 0x0100, 0x7f40, 0x7f00, 0x1f60, 0x1f00, 0x7f30, 0x7f00, 0x7708, 0x7700, 0x0778, 0x0700,
    0x7149, 0x4700, 0x007f, 0x4100, 0x031c, 0x6000, 0x0041, 0x7f00, 0x0201, 0x0200, 0x8080, 0x8000,
    0x0001, 0x0200, 0x2454, 0x7800, 0x7f44, 0x3800, 0x3844, 0x2800, 0x3844, 0x7f00, 0x3854, 0x5800,
    0x087e, 0x0900, 0x4854, 0x3c00, 0x7f04, 0x7800, 0x447d, 0x4000, 0x2040, 0x3d00, 0x7f10, 0x6c00,
    0x417f, 0x4000, 0x7c18, 0x7c00, 0x7c04, 0x7800, 0x3844, 0x3800, 0x7c14, 0x0800, 0x0814, 0x7c00,
    0x7c04, 0x0800, 0x4854, 0x2400, 0x043e, 0x4400, 0x3c40, 0x7c00, 0x1c60, 0x1c00, 0x7c30, 0x7c00,
    0x6c10, 0x6c00, 0x4c50, 0x3c00, 0x6454, 0x4c00, 0x0836, 0x4100, 0x0077, 0x0000, 0x4136, 0x0800,
    0x0201, 0x0201, 0x704c, 0x7000,
];

/// The built-in palette of sixteen 12-bit `0RGB` colours.
pub const DEFAULT_PALETTE: [u16; 16] = [
    0x000, 0x00a, 0x0a0, 0x0aa, 0xa00, 0xa0a, 0xa50, 0xaaa, 0x555, 0x55f, 0x5f5, 0x5ff, 0xf55,
    0xf5f, 0xff5, 0xfff,
];


/// The text of a number in decimal.
pub open spec fn decimal(n: nat) -> Seq<char>
    decreases n,
{
    if n < 10 {
        digit_text(n)
    } else {
        decimal(n / 10) + digit_text(n % 10)
    }
}

pub open spec fn digit_text(d: nat) -> Seq<char> {
    if d == 0 {
        "0"@
    } else if d == 1 {
        "1"@
    } else if d == 2 {
        "2"@
    } else if d == 3 {
        "3"@
    } else if d == 4 {
        "4"@
    } else if d == 5 {
        "5"@
    } else if d == 6 {
        "6"@
    } else if d == 7 {
        "7"@
    } else if d == 8 {
        "8"@
    } else {
        "9"@
    }
}

fn digit_str(d: u16) -> (r: &'static str)
    requires
        d < 10,
    ensures
        r@ == digit_text(d as nat),
{
    if d == 0 {
        "0"
    } else if d == 1 {
        "1"
    } else if d == 2 {
        "2"
    } else if d == 3 {
        "3"
    } else if d == 4 {
        "4"
    } else if d == 5 {
        "5"
    } else if d == 6 {
        "6"
    } else if d == 7 {
        "7"
    } else if d == 8 {
        "8"
    } else {
        "9"
    }
}

/// Writes a number in decimal.
fn decimal_string(n: u16) -> (r: String)
    ensures
        r@ == decimal(n as nat),
    decreases n,
{
    if n < 10 {
        String::from_str(digit_str(n))
    } else {
        let mut s = decimal_string(n / 10);
        s.append(digit_str(n % 10));
        s
    }
}

/// The red, green and blue intensities (0 to 15) of a 12-bit colour.
pub open spec fn red(color: u16) -> int {
    (color as int / 0x100) % 0x10
}

pub open spec fn green(color: u16) -> int {
    (color as int / 0x10) % 0x10
}

pub open spec fn blue(color: u16) -> int {
    color as int % 0x10
}

/// The nearest entry of the 256-colour terminal cube.
pub open spec fn ansi_color(color: u16) -> u16 {
    (16 + 36 * (red(color) / 3) + 6 * (green(color) / 3) + blue(color) / 3) as u16
}

/// `r;g;b` for a 24-bit terminal colour, each intensity times 16.
pub open spec fn rgb_text(color: u16) -> Seq<char> {
    decimal((red(color) * 16) as nat) + ";"@ + decimal((green(color) * 16) as nat) + ";"@
        + decimal((blue(color) * 16) as nat)
}

/// The half-width glyph for a 2x2 block of pixels: bit 0 top left, bit 1
/// bottom left, bit 2 top right, bit 3 bottom right.
pub open spec fn quadrant(pixels: u16) -> Seq<char> {
    if pixels == 0x0 {
        " "@
    } else if pixels == 0x1 {
        "\u{2598}"@
    } else if pixels == 0x2 {
        "\u{2596}"@
    } else if pixels == 0x3 {
        "\u{258c}"@
    } else if pixels == 0x4 {
        "\u{259d}"@
    } else if pixels == 0x5 {
        "\u{2580}"@
    } else if pixels == 0x6 {
        "\u{259e}"@
    } else if pixels == 0x7 {
        "\u{259b}"@
    } else if pixels == 0x8 {
        "\u{2597}"@
    } else if pixels == 0x9 {
        "\u{259a}"@
    } else if pixels == 0xa {
        "\u{2584}"@
    } else if pixels == 0xb {
        "\u{2599}"@
    } else if pixels == 0xc {
        "\u{2590}"@
    } else if pixels == 0xd {
        "\u{259c}"@
    } else if pixels == 0xe {
        "\u{259f}"@
    } else if pixels == 0xf {
        "\x1b[7m \x1b[27m"@
    } else {
        "X"@
    }
}

/// The full-width glyph for a 2x2 block of pixels, two cells wide.
pub open spec fn wide_quadrant(pixels: u16) -> Seq<char> {
    if pixels == 0x0 {
        "  "@
    } else if pixels == 0x1 {
        "\u{2580} "@
    } else if pixels == 0x2 {
        "\u{2584} "@
    } else if pixels == 0x3 {
        "\x1b[7m \x1b[27m "@
    } else if pixels == 0x4 {
        " \u{2580}"@
    } else if pixels == 0x5 {
        "\u{2580}\u{2580}"@
    } else if pixels == 0x6 {
        "\u{2584}\u{2580}"@
    } else if pixels == 0x7 {
        "\x1b[7m \x1b[27m\u{2580}"@
    } else if pixels == 0x8 {
        " \u{2584}"@
    } else if pixels == 0x9 {
        "\u{2580}\u{2584}"@
    } else if pixels == 0xa {
        "\u{2584}\u{2584}"@
    } else if pixels == 0xb {
        "\x1b[7m \x1b[27m\u{2584}"@
    } else if pixels == 0xc {
        " \x1b[7m \x1b[27m"@
    } else if pixels == 0xd {
        "\u{2580}\x1b[7m \x1b[27m"@
    } else if pixels == 0xe {
        "\u{2584}\x1b[7m \x1b[27m"@
    } else if pixels == 0xf {
        "\x1b[7m  \x1b[27m"@
    } else {
        "X"@
    }
}

/// The 2x2 block in row `row` (0 at the top) of the column pair `half`
/// (0 for the left pair) of a glyph; columns are the bytes of `pixels`,
/// leftmost in the high byte, and bit `n` of a column is pixel row `n`.
pub open spec fn block(pixels: u32, row: u32, half: u32) -> u16 {
    let left = (pixels >> ((24 - 16 * half) as u32)) & 0xFF;
    let right = (pixels >> ((16 - 16 * half) as u32)) & 0xFF;
    (((left >> ((2 * row) as u32)) & 3) + (((right >> ((2 * row) as u32)) & 3) << 2u32)) as u16
}

/// The first `n` character rows of a glyph, separated by moves to the row
/// below.
pub open spec fn glyph_rows(pixels: u32, wide: bool, n: nat) -> Seq<char>
    decreases n,
{
    let q = |p: u16| if wide { wide_quadrant(p) } else { quadrant(p) };
    let next_row = if wide { "\x1b[4D\x1b[B"@ } else { "\x1b[2D\x1b[B"@ };
    if n == 0 {
        Seq::empty()
    } else {
        let r = (n - 1) as u32;
        glyph_rows(pixels, wide, (n - 1) as nat) + (if n > 1 { next_row } else { Seq::empty() })
            + q(block(pixels, r, 0)) + q(block(pixels, r, 1))
    }
}

/// A glyph of four character rows, the cursor moved back up after it;
/// `wide` draws each block two cells wide.
#[verifier::opaque]
pub open spec fn glyph_text(pixels: u32, wide: bool) -> Seq<char> {
    glyph_rows(pixels, wide, 4) + "\x1b[3A"@
}

fn quadrant_str(pixels: u16) -> (r: &'static str)
    ensures
        r@ == quadrant(pixels),
{
    if pixels == 0x0 {
        " "
    } else if pixels == 0x1 {
        "\u{2598}"
    } else if pixels == 0x2 {
        "\u{2596}"
    } else if pixels == 0x3 {
        "\u{258c}"
    } else if pixels == 0x4 {
        "\u{259d}"
    } else if pixels == 0x5 {
        "\u{2580}"
    } else if pixels == 0x6 {
        "\u{259e}"
    } else if pixels == 0x7 {
        "\u{259b}"
    } else if pixels == 0x8 {
        "\u{2597}"
    } else if pixels == 0x9 {
        "\u{259a}"
    } else if pixels == 0xa {
        "\u{2584}"
    } else if pixels == 0xb {
        "\u{2599}"
    } else if pixels == 0xc {
        "\u{2590}"
    } else if pixels == 0xd {
        "\u{259c}"
    } else if pixels == 0xe {
        "\u{259f}"
    } else if pixels == 0xf {
        "\x1b[7m \x1b[27m"
    } else {
        "X"
    }
}

fn wide_quadrant_str(pixels: u16) -> (r: &'static str)
    ensures
        r@ == wide_quadrant(pixels),
{
    if pixels == 0x0 {
        "  "
    } else if pixels == 0x1 {
        "\u{2580} "
    } else if pixels == 0x2 {
        "\u{2584} "
    } else if pixels == 0x3 {
        "\x1b[7m \x1b[27m "
    } else if pixels == 0x4 {
        " \u{2580}"
    } else if pixels == 0x5 {
        "\u{2580}\u{2580}"
    } else if pixels == 0x6 {
        "\u{2584}\u{2580}"
    } else if pixels == 0x7 {
        "\x1b[7m \x1b[27m\u{2580}"
    } else if pixels == 0x8 {
        " \u{2584}"
    } else if pixels == 0x9 {
        "\u{2580}\u{2584}"
    } else if pixels == 0xa {
        "\u{2584}\u{2584}"
    } else if pixels == 0xb {
        "\x1b[7m \x1b[27m\u{2584}"
    } else if pixels == 0xc {
        " \x1b[7m \x1b[27m"
    } else if pixels == 0xd {
        "\u{2580}\x1b[7m \x1b[27m"
    } else if pixels == 0xe {
        "\u{2584}\x1b[7m \x1b[27m"
    } else if pixels == 0xf {
        "\x1b[7m  \x1b[27m"
    } else {
        "X"
    }
}

fn block_of(pixels: u32, row: u32, half: u32) -> (r: u16)
    requires
        row < 4,
        half < 2,
    ensures
        r == block(pixels, row, half),
{
    let left = (pixels >> (24 - 16 * half)) & 0xFF;
    let right = (pixels >> (16 - 16 * half)) & 0xFF;
    let low = (left >> (2 * row)) & 3;
    let high = ((right >> (2 * row)) & 3) << 2u32;
    assert(low <= 3 && high <= 12) by (bit_vector)
        requires
            low == (left >> (2 * row) as u32) & 3,
            high == ((right >> (2 * row) as u32) & 3) << 2u32,
    ;
    (low + high) as u16
}

fn glyph(pixels: u32, wide: bool) -> (r: String)
    ensures
        r@ == glyph_text(pixels, wide),
{
    let next_row = if wide {
        "\x1b[4D\x1b[B"
    } else {
        "\x1b[2D\x1b[B"
    };
    let mut out = String::new();
    let mut row: u32 = 0;
    let ghost q = |p: u16| if wide { wide_quadrant(p) } else { quadrant(p) };
    while row < 4
        invariant
            row <= 4,
            next_row@ == (if wide { "\x1b[4D\x1b[B"@ } else { "\x1b[2D\x1b[B"@ }),
            q == (|p: u16| if wide { wide_quadrant(p) } else { quadrant(p) }),
            out@ == glyph_rows(pixels, wide, row as nat),
        decreases 4 - row,
    {
        if row > 0 {
            out.append(next_row);
        }
        let left = block_of(pixels, row, 0);
        let right = block_of(pixels, row, 1);
        if wide {
            out.append(wide_quadrant_str(left));
            out.append(wide_quadrant_str(right));
        } else {
            out.append(quadrant_str(left));
            out.append(quadrant_str(right));
        }
        row = row + 1;
    }
    out.append("\x1b[3A");
    proof {
        reveal(glyph_text);
    }
    out
}

proof fn lemma_channels(color: u16)
    ensures
        (color & 0x0F00) >> 8u16 == red(color),
        (color & 0x00F0) >> 4u16 == green(color),
        color & 0x000F == blue(color),
        red(color) < 16 && green(color) < 16 && blue(color) < 16,
{
    assert((color & 0x0F00) >> 8u16 == (color / 0x100) % 0x10) by (bit_vector);
    assert((color & 0x00F0) >> 4u16 == (color / 0x10) % 0x10) by (bit_vector);
    assert(color & 0x000F == color % 0x10) by (bit_vector);
}

proof fn lemma_cell_fields(cell: u16)
    ensures
        cell & 0x7F == cell % 0x80,
        cell >> 12u16 == cell / 0x1000,
        (cell >> 8u16) & 0xF == (cell / 0x100) % 0x10,
        cell / 0x1000 < 16,
{
    assert(cell & 0x7F == cell % 0x80) by (bit_vector);
    assert(cell >> 12u16 == cell / 0x1000) by (bit_vector);
    assert((cell >> 8u16) & 0xF == (cell / 0x100) % 0x10) by (bit_vector);
}

/// The LEM1802-style display: 32x12 cells of text read from memory.
#[derive(Copy, Clone, Debug, PartialEq, Eq, Structural)]
pub struct Monitor {
    pub screen_addr: u16,
    pub font_addr: u16,
    pub palette_addr: u16,
    pub border_color: u16,
}

impl Monitor {
    /// The 12-bit colour of palette entry `index`: from memory when a palette
    /// is mapped, else the built-in one.
    pub open spec fn palette_color(self, memory: Seq<u16>, index: int) -> u16 {
        if self.palette_addr > 0 {
            memory[add_word(self.palette_addr, index as u16) as int]
        } else {
            DEFAULT_PALETTE@[index]
        }
    }

    /// Word `k` of the font: from memory when a font is mapped, else the
    /// built-in one.
    pub open spec fn font_word(self, memory: Seq<u16>, k: int) -> u16 {
        if self.font_addr > 0 {
            memory[add_word(self.font_addr, k as u16) as int]
        } else {
            DEFAULT_FONT@[k]
        }
    }

    /// The pixels of glyph `index`: its first font word above its second.
    #[verifier::opaque]
    pub open spec fn glyph_pixels(self, memory: Seq<u16>, index: int) -> u32 {
        (self.font_word(memory, 2 * index) * 0x10000 + self.font_word(memory, 2 * index + 1)) as u32
    }

    /// The colour codes that open a cell: foreground from bits 12-15 of the
    /// cell word, background from bits 8-11.
    #[verifier::opaque]
    pub open spec fn colors_text(self, memory: Seq<u16>, cell: int, truecolor: bool) -> Seq<char> {
        let fg = self.palette_color(memory, cell / 0x1000);
        let bg = self.palette_color(memory, (cell / 0x100) % 0x10);
        if truecolor {
            "\x1b[38;2;"@ + rgb_text(fg) + "m\x1b[48;2;"@ + rgb_text(bg) + "m"@
        } else {
            "\x1b[38;5;"@ + decimal(ansi_color(fg) as nat) + "m\x1b[48;5;"@ + decimal(
                ansi_color(bg) as nat,
            ) + "m"@
        }
    }

    /// The text of screen cell `i`: its colours, then the glyph of bits 0-6.
    pub open spec fn cell_text(self, memory: Seq<u16>, i: int, truecolor: bool) -> Seq<char> {
        let cell = memory[add_word(self.screen_addr, i as u16) as int] as int;
        self.colors_text(memory, cell, truecolor) + glyph_text(
            self.glyph_pixels(memory, cell % 0x80),
            true,
        )
    }

    /// The text of the first `n` cells, row by row, each row after the first
    /// starting on a new line below the previous one.
    pub open spec fn cells_text(self, memory: Seq<u16>, n: nat, truecolor: bool) -> Seq<char>
        decreases n,
    {
        if n == 0 {
            Seq::empty()
        } else {
            let i = n - 1;
            let row_break = if i > 0 && i % 32 == 0 {
                "\x1b[3B\n"@
            } else {
                Seq::empty()
            };
            self.cells_text(memory, (n - 1) as nat, truecolor) + row_break + self.cell_text(
                memory,
                i,
                truecolor,
            )
        }
    }

    /// The whole screen, drawn from the top-left corner.
    pub open spec fn screen_text(self, memory: Seq<u16>, truecolor: bool) -> Seq<char> {
        "\x1b[0;0H"@ + self.cells_text(memory, 384, truecolor)
    }

    /// A display that shows nothing mapped: built-in font and palette.
    pub fn new() -> (m: Monitor)
        ensures
            m == (Monitor { screen_addr: 0, font_addr: 0, palette_addr: 0, border_color: 0 }),
    {
        Monitor { screen_addr: 0x0, font_addr: 0x0, palette_addr: 0x0, border_color: 0x0 }
    }

    pub fn id(&self) -> (r: u32)
        ensures
            r == 0x7349F615,
    {
        0x7349F615
    }

    pub fn version(&self) -> (r: u16)
        ensures
            r == 0x1802,
    {
        0x1802
    }

    pub fn manufacturer(&self) -> (r: u32)
        ensures
            r == 0x1C6C8B36,
    {
        0x1C6C8B36
    }

    /// An interrupt with `A` selecting what to map and `B` the address:
    /// 0 the screen, 1 the font, 2 the palette, 3 the border colour; any other
    /// `A` is ignored.
    pub fn handle_interrupt(&mut self, processor: &Processor)
        ensures
            ({
                let a = processor@.reg(Register::A);
                let b = processor@.reg(Register::B);
                *final(self) == if a == 0 {
                    Monitor { screen_addr: b, ..*old(self) }
                } else if a == 1 {
                    Monitor { font_addr: b, ..*old(self) }
                } else if a == 2 {
                    Monitor { palette_addr: b, ..*old(self) }
                } else if a == 3 {
                    Monitor { border_color: b, ..*old(self) }
                } else {
                    *old(self)
                }
            }),
    {
        let op = processor.get_register(Register::A);
        let param = processor.get_register(Register::B);
        if op == 0x00 {
            self.screen_addr = param;
        } else if op == 0x01 {
            self.font_addr = param;
        } else if op == 0x02 {
            self.palette_addr = param;
        } else if op == 0x03 {
            self.border_color = param;
        }
    }

    /// The half-width glyph for a 2x2 block of pixels.
    pub fn get_2x2_char(&self, pixels: u16) -> (r: String)
        ensures
            r@ == quadrant(pixels),
    {
        String::from_str(quadrant_str(pixels))
    }

    /// The full-width glyph for a 2x2 block of pixels.
    pub fn get_wide_2x2_char(&self, pixels: u16) -> (r: String)
        ensures
            r@ == wide_quadrant(pixels),
    {
        String::from_str(wide_quadrant_str(pixels))
    }

    /// A 4x8 glyph drawn with half-width blocks.
    pub fn get_8x4_char(&self, pixels: u32) -> (r: String)
        ensures
            r@ == glyph_text(pixels, false),
    {
        glyph(pixels, false)
    }

    /// A 4x8 glyph drawn with full-width blocks.
    pub fn get_wide_8x4_char(&self, pixels: u32) -> (r: String)
        ensures
            r@ == glyph_text(pixels, true),
    {
        glyph(pixels, true)
    }

    fn palette_entry(&self, processor: &Processor, index: u8) -> (r: u16)
        requires
            processor.wf(),
            index < 16,
        ensures
            r == self.palette_color(processor@.memory, index as int),
    {
        if self.palette_addr > 0 {
            processor.get_memory(self.palette_addr.wrapping_add(index as u16))
        } else {
            let palette = DEFAULT_PALETTE;
            palette[index as usize]
        }
    }

    /// The 256-colour terminal code of palette entry `index`.
    pub fn get_ansi_color(&self, processor: &Processor, index: u8) -> (r: u16)
        requires
            processor.wf(),
            index < 16,
        ensures
            r == ansi_color(self.palette_color(processor@.memory, index as int)),
    {
        let color = self.palette_entry(processor, index);
        let r = ((color & 0x0F00) >> 8u16) / 3;
        let g = ((color & 0x00F0) >> 4u16) / 3;
        let b = (color & 0x000F) / 3;
        proof {
            lemma_channels(color);
        }
        16 + 36 * r + 6 * g + b
    }

    /// The `r;g;b` text of palette entry `index` for a 24-bit terminal.
    pub fn get_24bit_ansi_color(&self, processor: &Processor, index: u8) -> (r: String)
        requires
            processor.wf(),
            index < 16,
        ensures
            r@ == rgb_text(self.palette_color(processor@.memory, index as int)),
    {
        let color = self.palette_entry(processor, index);
        proof {
            lemma_channels(color);
        }
        let mut out = decimal_string(((color & 0x0F00) >> 8u16) * 16);
        out.append(";");
        let g = decimal_string(((color & 0x00F0) >> 4u16) * 16);
        out.append(g.as_str());
        out.append(";");
        let b = decimal_string((color & 0x000F) * 16);
        out.append(b.as_str());
        out
    }

    fn font_entry(&self, processor: &Processor, k: u16) -> (r: u16)
        requires
            processor.wf(),
            k < 0x100,
        ensures
            r == self.font_word(processor@.memory, k as int),
    {
        if self.font_addr > 0 {
            processor.get_memory(self.font_addr.wrapping_add(k))
        } else {
            let font = DEFAULT_FONT;
            font[k as usize]
        }
    }

    /// Glyph `index` of the font, drawn with full-width blocks.
    pub fn get_font_char(&self, processor: &Processor, index: u16) -> (r: String)
        requires
            processor.wf(),
            index < 0x80,
        ensures
            r@ == glyph_text(self.glyph_pixels(processor@.memory, index as int), true),
    {
        let word0 = self.font_entry(processor, index * 2);
        let word1 = self.font_entry(processor, index * 2 + 1);
        let pixels = (word0 as u32) * 0x10000 + word1 as u32;
        proof {
            reveal(Monitor::glyph_pixels);
        }
        glyph(pixels, true)
    }

    fn render_colors(&self, processor: &Processor, cell: u16, truecolor: bool) -> (r: String)
        requires
            processor.wf(),
        ensures
            r@ == self.colors_text(processor@.memory, cell as int, truecolor),
    {
        let f = (cell >> 12u16) as u8;
        let b = ((cell >> 8u16) & 0xF) as u8;
        proof {
            lemma_cell_fields(cell);
        }
        let mut out = String::new();
        if truecolor {
            out.append("\x1b[38;2;");
            let fg = self.get_24bit_ansi_color(processor, f);
            out.append(fg.as_str());
            out.append("m\x1b[48;2;");
            let bg = self.get_24bit_ansi_color(processor, b);
            out.append(bg.as_str());
        } else {
            out.append("\x1b[38;5;");
            let fg = decimal_string(self.get_ansi_color(processor, f));
            out.append(fg.as_str());
            out.append("m\x1b[48;5;");
            let bg = decimal_string(self.get_ansi_color(processor, b));
            out.append(bg.as_str());
        }
        out.append("m");
        proof {
            reveal(Monitor::colors_text);
            assert(out@ =~= self.colors_text(processor@.memory, cell as int, truecolor));
        }
        out
    }

    fn render_cell(&self, processor: &Processor, i: u16, truecolor: bool) -> (r: String)
        requires
            processor.wf(),
        ensures
            r@ == self.cell_text(processor@.memory, i as int, truecolor),
    {
        let cell = processor.get_memory(self.screen_addr.wrapping_add(i));
        proof {
            lemma_cell_fields(cell);
        }
        let mut out = self.render_colors(processor, cell, truecolor);
        let tile = self.get_font_char(processor, cell & 0x7F);
        out.append(tile.as_str());
        out
    }

    fn render(&self, processor: &Processor, truecolor: bool) -> (r: String)
        requires
            processor.wf(),
        ensures
            r@ == self.screen_text(processor@.memory, truecolor),
    {
        let ghost memory = processor@.memory;
        let mut out = String::from_str("\x1b[0;0H");
        let mut i: u16 = 0;
        while i < 384
            invariant
                processor.wf(),
                memory == processor@.memory,
                i <= 384,
                out@ == "\x1b[0;0H"@ + self.cells_text(memory, i as nat, truecolor),
            decreases 384 - i,
        {
            if i > 0 && i % 32 == 0 {
                out.append("\x1b[3B\n");
            }
            let cell = self.render_cell(processor, i, truecolor);
            out.append(cell.as_str());
            proof {
                assert(out@ =~= "\x1b[0;0H"@ + self.cells_text(memory, (i + 1) as nat, truecolor));
            }
            i = i + 1;
        }
        out
    }

    /// The screen for a 256-colour terminal.
    pub fn render_ansi(&self, processor: &Processor) -> (r: String)
        requires
            processor.wf(),
        ensures
            r@ == self.screen_text(processor@.memory, false),
    {
        self.render(processor, false)
    }

    /// The screen for a 24-bit colour terminal.
    pub fn render_24bit_ansi(&self, processor: &Processor) -> (r: String)
        requires
            processor.wf(),
        ensures
            r@ == self.screen_text(processor@.memory, true),
    {
        self.render(processor, true)
    }
}

} // verus!
