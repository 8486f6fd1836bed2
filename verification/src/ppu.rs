//! The 64x32 monochrome framebuffer.
//!
//! Sprites are drawn by XOR: a set sprite bit toggles the pixel it lands on,
//! and turning a lit pixel off counts as a collision.  Coordinates wrap at 64
//! columns and 32 rows.

use vstd::prelude::*;

verus! {

/// The built-in font: 5 bytes per hexadecimal digit glyph, 16 glyphs.
pub const FONT_SET: [u8; 80] = [
    0xF0, 0x90, 0x90, 0x90, 0xF0, // 0
    0x20, 0x60, 0x20, 0x20, 0x70, // 1
    0xF0, 0x10, 0xF0, 0x80, 0xF0, // 2
    0xF0, 0x10, 0xF0, 0x10, 0xF0, // 3
    0x90, 0x90, 0xF0, 0x10, 0x10, // 4
    0xF0, 0x80, 0xF0, 0x10, 0xF0, // 5
    0xF0, 0x80, 0xF0, 0x90, 0xF0, // 6
    0xF0, 0x10, 0x20, 0x40, 0x40, // 7
    0xF0, 0x90, 0xF0, 0x90, 0xF0, // 8
    0xF0, 0x90, 0xF0, 0x10, 0xF0, // 9
    0xF0, 0x90, 0xF0, 0x90, 0x90, // A
    0xE0, 0x90, 0xE0, 0x90, 0xE0, // B
    0xF0, 0x80, 0x80, 0x80, 0xF0, // C
    0xE0, 0x90, 0x90, 0x90, 0xE0, // D
    0xF0, 0x80, 0xF0, 0x80, 0xF0, // E
    0xF0, 0x80, 0xF0, 0x80, 0x80, // F
];

/// The font as a sequence, for use in contracts.
pub open spec fn font_seq() -> Seq<u8> {
    FONT_SET@
}

/// A framebuffer with every pixel dark.
pub open spec fn blank_screen() -> Seq<u8> {
    Seq::new(2048, |k: int| 0u8)
}

/// Whether bit `i` of a sprite row byte is set; bit 0 is the leftmost
/// (most significant) bit.
pub open spec fn row_bit(row: u8, i: int) -> bool {
    (row >> ((7 - i) as u8)) & 1 == 1
}

/// The framebuffer cell hit by bit `i` of sprite row `j` when the sprite is
/// drawn at `(x, y)`; coordinates wrap at the screen bounds.
pub open spec fn cell_index(x: int, y: int, i: int, j: int) -> int {
    (x + i) % 64 + ((y + j) % 32) * 64
}

/// Framebuffer and collision flag after drawing bits `i..8` of sprite row
/// `j` (byte `row`), starting from screen `scr` and collision flag `col`.
/// A set bit toggles its cell between 0 and 1; a collision is a cell that
/// was 1 and is toggled off.
pub open spec fn draw_bits(
    scr: Seq<u8>,
    x: int,
    y: int,
    row: u8,
    j: int,
    i: int,
    col: bool,
) -> (Seq<u8>, bool)
    decreases 8 - i,
{
    if i < 0 || i >= 8 {
        (scr, col)
    } else if row_bit(row, i) {
        let idx = cell_index(x, y, i, j);
        let lit = scr[idx] == 1;
        draw_bits(
            scr.update(idx, if lit { 0u8 } else { 1u8 }),
            x,
            y,
            row,
            j,
            i + 1,
            col || lit,
        )
    } else {
        draw_bits(scr, x, y, row, j, i + 1, col)
    }
}

/// Framebuffer and collision flag after drawing sprite rows `j..` starting
/// from screen `scr` and collision flag `col`.
pub open spec fn draw_rows(
    scr: Seq<u8>,
    x: int,
    y: int,
    sprite: Seq<u8>,
    j: int,
    col: bool,
) -> (Seq<u8>, bool)
    decreases sprite.len() - j,
{
    if j < 0 || j >= sprite.len() {
        (scr, col)
    } else {
        let r = draw_bits(scr, x, y, sprite[j], j, 0, col);
        draw_rows(r.0, x, y, sprite, j + 1, r.1)
    }
}

/// The framebuffer and collision flag produced by XOR-drawing `sprite` at
/// `(x, y)` on screen `scr`.
pub open spec fn spec_draw(scr: Seq<u8>, x: int, y: int, sprite: Seq<u8>) -> (Seq<u8>, bool) {
    draw_rows(scr, x, y, sprite, 0, false)
}

/// The pixel memory of the output surface: one byte per pixel, row-major,
/// 64 columns by 32 rows.  Pixels are 0 (dark) or 1 (lit); `set_pixel`
/// stores the byte it is given verbatim.
pub struct Ppu {
    pub memory: Vec<u8>,
}

impl Ppu {
    /// The framebuffer always holds exactly one byte per pixel.
    pub open spec fn wf(&self) -> bool {
        self.memory@.len() == 2048
    }

    /// A fresh, fully dark framebuffer.
    pub fn new() -> (p: Ppu)
        ensures
            p.wf(),
            p.memory@ == blank_screen(),
    {
        Ppu { memory: blank_vec() }
    }

    /// Clears the screen: every pixel becomes dark.
    pub fn cls(&mut self)
        ensures
            final(self).wf(),
            final(self).memory@ == blank_screen(),
    {
        self.memory = blank_vec();
    }

    /// Stores `val` at pixel `(x, y)`.
    pub fn set_pixel(&mut self, x: usize, y: usize, val: u8)
        requires
            old(self).wf(),
            x < 64,
            y < 32,
        ensures
            final(self).wf(),
            final(self).memory@ == old(self).memory@.update((x + y * 64) as int, val),
    {
        self.memory[x + y * 64] = val;
    }

    /// Whether pixel `(x, y)` is lit.
    pub fn get_pixel(&self, x: usize, y: usize) -> (lit: bool)
        requires
            self.wf(),
            x < 64,
            y < 32,
        ensures
            lit == (self.memory@[(x + y * 64) as int] == 1),
    {
        self.memory[x + y * 64] == 1
    }

    /// Draws `sprite` at `(x, y)` and reports whether any previously lit
    /// pixel was turned off.
    pub fn draw(&mut self, x: usize, y: usize, sprite: &[u8]) -> (collision: bool)
        requires
            old(self).wf(),
            sprite@.len() + 32 <= usize::MAX,
        ensures
            final(self).wf(),
            final(self).memory@ == spec_draw(old(self).memory@, x as int, y as int, sprite@).0,
            collision == spec_draw(old(self).memory@, x as int, y as int, sprite@).1,
    {
        let ghost scr0 = self.memory@;
        let ghost gx = x as int;
        let ghost gy = y as int;
        let xr = x % 64;
        let yr = y % 32;
        let mut collision = false;
        let rows = sprite.len();
        let mut j: usize = 0;
        while j < rows
            invariant
                self.wf(),
                j <= rows,
                rows == sprite@.len(),
                rows + 32 <= usize::MAX,
                0 <= gx,
                0 <= gy,
                xr == gx % 64,
                yr == gy % 32,
                spec_draw(scr0, gx, gy, sprite@) == draw_rows(
                    self.memory@,
                    gx,
                    gy,
                    sprite@,
                    j as int,
                    collision,
                ),
            decreases rows - j,
        {
            let row = sprite[j];
            let mut i: usize = 0;
            while i < 8
                invariant
                    self.wf(),
                    i <= 8,
                    j < rows,
                    rows == sprite@.len(),
                    rows + 32 <= usize::MAX,
                    0 <= gx,
                    0 <= gy,
                    xr == gx % 64,
                    yr == gy % 32,
                    row == sprite@[j as int],
                    spec_draw(scr0, gx, gy, sprite@) == ({
                        let r = draw_bits(
                            self.memory@,
                            gx,
                            gy,
                            row,
                            j as int,
                            i as int,
                            collision,
                        );
                        draw_rows(r.0, gx, gy, sprite@, j as int + 1, r.1)
                    }),
                decreases 8 - i,
            {
                let shift: u8 = (7 - i) as u8;
                let new_value = (row >> shift) & 0x01;
                if new_value == 1 {
                    let ghost scr_i = self.memory@;
                    let ghost col_i = collision;
                    let xi = (xr + i) % 64;
                    let yj = (yr + j) % 32;
                    proof {
                        lemma_wrap_shift(gx, i as int, 64);
                        lemma_wrap_shift(gy, j as int, 32);
                        assert(xi == (gx + i) % 64);
                        assert(yj == (gy + j) % 32);
                    }
                    let old_value = self.get_pixel(xi, yj);
                    if old_value {
                        collision = true;
                    }
                    let display_value: u8 = if old_value {
                        0
                    } else {
                        1
                    };
                    self.set_pixel(xi, yj, display_value);
                    proof {
                        assert(row_bit(row, i as int));
                        assert(self.memory@ == scr_i.update(
                            cell_index(gx, gy, i as int, j as int),
                            display_value,
                        ));
                        assert(draw_bits(scr_i, gx, gy, row, j as int, i as int, col_i)
                            == draw_bits(
                            self.memory@,
                            gx,
                            gy,
                            row,
                            j as int,
                            i as int + 1,
                            collision,
                        ));
                    }
                } else {
                    proof {
                        assert(!row_bit(row, i as int));
                    }
                }
                i = i + 1;
            }
            j = j + 1;
        }
        collision
    }
}

/// Builds a fully dark pixel memory.
fn blank_vec() -> (v: Vec<u8>)
    ensures
        v@ == blank_screen(),
{
    let mut v: Vec<u8> = Vec::new();
    while v.len() < 2048
        invariant
            v@.len() <= 2048,
            forall|k: int| 0 <= k < v@.len() ==> v@[k] == 0u8,
        decreases 2048 - v@.len(),
    {
        v.push(0);
    }
    proof {
        assert(v@ =~= blank_screen());
    }
    v
}

/// Offsetting by `b` then reducing modulo `m` gives the same cell whether
/// `a` was reduced first or not.
proof fn lemma_wrap_shift(a: int, b: int, m: int)
    requires
        0 <= a,
        0 <= b,
        0 < m,
    ensures
        (a % m + b) % m == (a + b) % m,
{
    vstd::arithmetic::div_mod::lemma_add_mod_noop(a, b, m);
    vstd::arithmetic::div_mod::lemma_add_mod_noop(a % m, b, m);
    vstd::arithmetic::div_mod::lemma_mod_twice(a, m);
}

} // verus!
