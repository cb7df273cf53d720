//! The 5x7 bitmap font that generated photos are marked with, and the
//! canvas the marker text is drawn on.

use vstd::prelude::*;
use crate::text::{char_upper, upper_char};

verus! {

/// The rows of a glyph, top to bottom; bit 4 is the leftmost column. Letters
/// are drawn in upper case; a character without a glyph is drawn as a
/// question mark.
pub open spec fn glyph_rows(c: char) -> Seq<u8> {
    match upper_char(c) {
        'A' => seq![0b01110, 0b10001, 0b10001, 0b11111, 0b10001, 0b10001, 0b10001],
        'B' => seq![0b11110, 0b10001, 0b11110, 0b10001, 0b10001, 0b10001, 0b11110],
        'C' => seq![0b01110, 0b10001, 0b10000, 0b10000, 0b10000, 0b10001, 0b01110],
        'D' => seq![0b11110, 0b10001, 0b10001, 0b10001, 0b10001, 0b10001, 0b11110],
        'E' => seq![0b11111, 0b10000, 0b11110, 0b10000, 0b10000, 0b10000, 0b11111],
        'G' => seq![0b01110, 0b10001, 0b10000, 0b10111, 0b10001, 0b10001, 0b01110],
        'I' => seq![0b11111, 0b00100, 0b00100, 0b00100, 0b00100, 0b00100, 0b11111],
        'M' => seq![0b10001, 0b11011, 0b10101, 0b10101, 0b10001, 0b10001, 0b10001],
        'P' => seq![0b11110, 0b10001, 0b10001, 0b11110, 0b10000, 0b10000, 0b10000],
        'R' => seq![0b11110, 0b10001, 0b10001, 0b11110, 0b10100, 0b10010, 0b10001],
        'S' => seq![0b01111, 0b10000, 0b10000, 0b01110, 0b00001, 0b00001, 0b11110],
        'T' => seq![0b11111, 0b00100, 0b00100, 0b00100, 0b00100, 0b00100, 0b00100],
        'U' => seq![0b10001, 0b10001, 0b10001, 0b10001, 0b10001, 0b10001, 0b01110],
        'Y' => seq![0b10001, 0b10001, 0b01010, 0b00100, 0b00100, 0b00100, 0b00100],
        '_' => seq![0b00000, 0b00000, 0b00000, 0b00000, 0b00000, 0b00000, 0b11111],
        '-' => seq![0b00000, 0b00000, 0b00000, 0b11111, 0b00000, 0b00000, 0b00000],
        '.' => seq![0b00000, 0b00000, 0b00000, 0b00000, 0b00000, 0b01100, 0b01100],
        '0' => seq![0b01110, 0b10001, 0b10011, 0b10101, 0b11001, 0b10001, 0b01110],
        '1' => seq![0b00100, 0b01100, 0b00100, 0b00100, 0b00100, 0b00100, 0b01110],
        '2' => seq![0b01110, 0b10001, 0b00001, 0b00010, 0b00100, 0b01000, 0b11111],
        '3' => seq![0b11110, 0b00001, 0b00001, 0b01110, 0b00001, 0b00001, 0b11110],
        '4' => seq![0b00010, 0b00110, 0b01010, 0b10010, 0b11111, 0b00010, 0b00010],
        '5' => seq![0b11111, 0b10000, 0b10000, 0b11110, 0b00001, 0b00001, 0b11110],
        '6' => seq![0b01110, 0b10000, 0b10000, 0b11110, 0b10001, 0b10001, 0b01110],
        '7' => seq![0b11111, 0b00001, 0b00010, 0b00100, 0b01000, 0b01000, 0b01000],
        '8' => seq![0b01110, 0b10001, 0b10001, 0b01110, 0b10001, 0b10001, 0b01110],
        '9' => seq![0b01110, 0b10001, 0b10001, 0b01111, 0b00001, 0b00001, 0b01110],
        _ => seq![0b11111, 0b00001, 0b00110, 0b00100, 0b00100, 0b00000, 0b00100],
    }
}

/// The glyph of a character.
pub fn glyph_5x7(c: char) -> (r: [u8; 7])
    ensures
        r@ == glyph_rows(c),
{
    match char_upper(c) {
        'A' => [0b01110, 0b10001, 0b10001, 0b11111, 0b10001, 0b10001, 0b10001],
        'B' => [0b11110, 0b10001, 0b11110, 0b10001, 0b10001, 0b10001, 0b11110],
        'C' => [0b01110, 0b10001, 0b10000, 0b10000, 0b10000, 0b10001, 0b01110],
        'D' => [0b11110, 0b10001, 0b10001, 0b10001, 0b10001, 0b10001, 0b11110],
        'E' => [0b11111, 0b10000, 0b11110, 0b10000, 0b10000, 0b10000, 0b11111],
        'G' => [0b01110, 0b10001, 0b10000, 0b10111, 0b10001, 0b10001, 0b01110],
        'I' => [0b11111, 0b00100, 0b00100, 0b00100, 0b00100, 0b00100, 0b11111],
        'M' => [0b10001, 0b11011, 0b10101, 0b10101, 0b10001, 0b10001, 0b10001],
        'P' => [0b11110, 0b10001, 0b10001, 0b11110, 0b10000, 0b10000, 0b10000],
        'R' => [0b11110, 0b10001, 0b10001, 0b11110, 0b10100, 0b10010, 0b10001],
        'S' => [0b01111, 0b10000, 0b10000, 0b01110, 0b00001, 0b00001, 0b11110],
        'T' => [0b11111, 0b00100, 0b00100, 0b00100, 0b00100, 0b00100, 0b00100],
        'U' => [0b10001, 0b10001, 0b10001, 0b10001, 0b10001, 0b10001, 0b01110],
        'Y' => [0b10001, 0b10001, 0b01010, 0b00100, 0b00100, 0b00100, 0b00100],
        '_' => [0b00000, 0b00000, 0b00000, 0b00000, 0b00000, 0b00000, 0b11111],
        '-' => [0b00000, 0b00000, 0b00000, 0b11111, 0b00000, 0b00000, 0b00000],
        '.' => [0b00000, 0b00000, 0b00000, 0b00000, 0b00000, 0b01100, 0b01100],
        '0' => [0b01110, 0b10001, 0b10011, 0b10101, 0b11001, 0b10001, 0b01110],
        '1' => [0b00100, 0b01100, 0b00100, 0b00100, 0b00100, 0b00100, 0b01110],
        '2' => [0b01110, 0b10001, 0b00001, 0b00010, 0b00100, 0b01000, 0b11111],
        '3' => [0b11110, 0b00001, 0b00001, 0b01110, 0b00001, 0b00001, 0b11110],
        '4' => [0b00010, 0b00110, 0b01010, 0b10010, 0b11111, 0b00010, 0b00010],
        '5' => [0b11111, 0b10000, 0b10000, 0b11110, 0b00001, 0b00001, 0b11110],
        '6' => [0b01110, 0b10000, 0b10000, 0b11110, 0b10001, 0b10001, 0b01110],
        '7' => [0b11111, 0b00001, 0b00010, 0b00100, 0b01000, 0b01000, 0b01000],
        '8' => [0b01110, 0b10001, 0b10001, 0b01110, 0b10001, 0b10001, 0b01110],
        '9' => [0b01110, 0b10001, 0b10001, 0b01111, 0b00001, 0b00001, 0b01110],
        _ => [0b11111, 0b00001, 0b00110, 0b00100, 0b00100, 0b00000, 0b00100],
    }
}

/// Whether column `col` (0 to 4, left to right) of row `row` of a glyph is
/// inked.
pub open spec fn glyph_bit(c: char, row: int, col: int) -> bool {
    (glyph_rows(c)[row] >> ((4 - col) as u8)) & 1u8 == 1u8
}

/// An RGB color.
pub type Rgb = (u8, u8, u8);

/// A picture as rows of RGB pixels, top to bottom.
#[derive(Clone, Debug)]
pub struct Canvas {
    pub width: u32,
    pub height: u32,
    pub rows: Vec<Vec<Rgb>>,
}

/// Whether `(px, py)` lies in the square of side `size` whose top left
/// corner is `(x, y)`.
pub open spec fn in_block(px: int, py: int, x: int, y: int, size: int) -> bool {
    x <= px < x + size && y <= py < y + size
}

/// Whether `(px, py)` is inked by row `row` of glyph `c` drawn at `(x, y)`
/// with blocks of side `scale`, looking at its first `cols` columns.
pub open spec fn row_ink(c: char, row: int, cols: int, x: int, y: int, scale: int, px: int, py: int) -> bool {
    exists|col: int|
        0 <= col < cols && glyph_bit(c, row, col) && #[trigger] in_block(
            px,
            py,
            x + col * scale,
            y + row * scale,
            scale,
        )
}

/// Whether `(px, py)` is inked by the first `rows` rows of glyph `c`.
pub open spec fn glyph_ink(c: char, rows: int, x: int, y: int, scale: int, px: int, py: int) -> bool {
    exists|row: int| 0 <= row < rows && #[trigger] row_ink(c, row, 5, x, y, scale, px, py)
}

/// Whether `(px, py)` is inked by the first `n` characters of `text`, each
/// glyph six blocks to the right of the one before.
pub open spec fn text_ink(text: Seq<char>, n: int, x: int, y: int, scale: int, px: int, py: int) -> bool {
    exists|k: int| 0 <= k < n && #[trigger] glyph_ink(text[k], 7, x + k * 6 * scale, y, scale, px, py)
}

impl Canvas {
    pub open spec fn wf(&self) -> bool {
        &&& self.rows@.len() == self.height
        &&& forall|r: int| 0 <= r < self.height ==> #[trigger] self.rows@[r]@.len() == self.width
    }

    pub open spec fn at(&self, px: int, py: int) -> Rgb {
        self.rows@[py]@[px]
    }

    /// A canvas of one color.
    pub fn filled(width: u32, height: u32, color: Rgb) -> (r: Canvas)
        ensures
            r.wf(),
            r.width == width,
            r.height == height,
            forall|px: int, py: int| 0 <= px < width && 0 <= py < height ==> #[trigger] r.at(px, py) == color,
    {
        let mut rows: Vec<Vec<Rgb>> = Vec::new();
        let mut j: u32 = 0;
        while j < height
            invariant
                j <= height,
                rows@.len() == j,
                forall|r: int| 0 <= r < j ==> #[trigger] rows@[r]@.len() == width,
                forall|r: int, c: int| 0 <= r < j && 0 <= c < width ==> #[trigger] rows@[r]@[c] == color,
            decreases height - j,
        {
            let mut row: Vec<Rgb> = Vec::new();
            let mut i: u32 = 0;
            while i < width
                invariant
                    i <= width,
                    row@.len() == i,
                    forall|c: int| 0 <= c < i ==> #[trigger] row@[c] == color,
                decreases width - i,
            {
                row.push(color);
                i += 1;
            }
            rows.push(row);
            j += 1;
        }
        Canvas { width, height, rows }
    }

    /// Paints the square of side `size` at `(x, y)`, clipped to the canvas.
    pub fn fill_block(&mut self, x: u32, y: u32, size: u32, color: Rgb)
        requires
            old(self).wf(),
            x + size <= u32::MAX,
            y + size <= u32::MAX,
        ensures
            final(self).wf(),
            final(self).width == old(self).width,
            final(self).height == old(self).height,
            forall|px: int, py: int|
                0 <= px < old(self).width && 0 <= py < old(self).height ==> #[trigger] final(self).at(px, py)
                    == if in_block(px, py, x as int, y as int, size as int) {
                    color
                } else {
                    old(self).at(px, py)
                },
    {
        let ghost start = *self;
        let mut dx: u32 = 0;
        while dx < size
            invariant
                self.wf(),
                self.width == start.width,
                self.height == start.height,
                start.wf(),
                x + size <= u32::MAX,
                y + size <= u32::MAX,
                dx <= size,
                forall|px: int, py: int|
                    0 <= px < start.width && 0 <= py < start.height ==> #[trigger] self.at(px, py) == if x
                        <= px < x + dx && y <= py < y + size {
                        color
                    } else {
                        start.at(px, py)
                    },
            decreases size - dx,
        {
            let mut dy: u32 = 0;
            while dy < size
                invariant
                    self.wf(),
                    self.width == start.width,
                    self.height == start.height,
                    start.wf(),
                    x + size <= u32::MAX,
                    y + size <= u32::MAX,
                    dx < size,
                    dy <= size,
                    forall|px: int, py: int|
                        0 <= px < start.width && 0 <= py < start.height ==> #[trigger] self.at(px, py)
                            == if (x <= px < x + dx && y <= py < y + size) || (px == x + dx && y <= py
                            < y + dy) {
                            color
                        } else {
                            start.at(px, py)
                        },
                decreases size - dy,
            {
                let px = x + dx;
                let py = y + dy;
                if px < self.width && py < self.height {
                    self.set_pixel(px, py, color);
                }
                dy += 1;
            }
            dx += 1;
        }
    }

    /// Inks row `row` of glyph `c` drawn at `(cx, y)`.
    fn draw_glyph_row(&mut self, c: char, bits: u8, row: u32, cx: u32, y: u32, scale: u32, color: Rgb)
        requires
            old(self).wf(),
            row < 7,
            bits == glyph_rows(c)[row as int],
            cx + 5 * scale <= u32::MAX,
            y + 7 * scale <= u32::MAX,
        ensures
            final(self).wf(),
            final(self).width == old(self).width,
            final(self).height == old(self).height,
            forall|px: int, py: int|
                0 <= px < old(self).width && 0 <= py < old(self).height ==> #[trigger] final(self).at(px, py)
                    == if row_ink(c, row as int, 5, cx as int, y as int, scale as int, px, py) {
                    color
                } else {
                    old(self).at(px, py)
                },
    {
        let ghost start = *self;
        let mut col: u8 = 0;
        while col < 5
            invariant
                self.wf(),
                self.width == start.width,
                self.height == start.height,
                start.wf(),
                row < 7,
                bits == glyph_rows(c)[row as int],
                cx + 5 * scale <= u32::MAX,
                y + 7 * scale <= u32::MAX,
                col <= 5,
                forall|px: int, py: int|
                    0 <= px < start.width && 0 <= py < start.height ==> #[trigger] self.at(px, py) == if row_ink(
                        c,
                        row as int,
                        col as int,
                        cx as int,
                        y as int,
                        scale as int,
                        px,
                        py,
                    ) {
                        color
                    } else {
                        start.at(px, py)
                    },
            decreases 5 - col,
        {
            let ghost before = *self;
            let on = (bits >> (4u8 - col)) & 1u8 == 1u8;
            proof {
                assert(on == glyph_bit(c, row as int, col as int));
                assert(col * scale <= 4 * scale) by (nonlinear_arith)
                    requires
                        col <= 4,
                ;
                assert(row * scale <= 6 * scale) by (nonlinear_arith)
                    requires
                        row <= 6,
                ;
            }
            let bx = cx + (col as u32) * scale;
            let by = y + row * scale;
            if on {
                self.fill_block(bx, by, scale, color);
            }
            col += 1;
            proof {
                assert forall|px: int, py: int|
                    0 <= px < start.width && 0 <= py < start.height implies #[trigger] self.at(px, py)
                    == if row_ink(c, row as int, col as int, cx as int, y as int, scale as int, px, py) {
                    color
                } else {
                    start.at(px, py)
                } by {
                    let here = on && in_block(px, py, bx as int, by as int, scale as int);
                    let prev = row_ink(c, row as int, col - 1, cx as int, y as int, scale as int, px, py);
                    if here {
                        assert(in_block(
                            px,
                            py,
                            cx + (col - 1) * scale,
                            y + row * scale,
                            scale as int,
                        ));
                    }
                    if row_ink(c, row as int, col as int, cx as int, y as int, scale as int, px, py) {
                        let w = choose|w: int|
                            0 <= w < col && glyph_bit(c, row as int, w) && #[trigger] in_block(
                                px,
                                py,
                                cx + w * scale,
                                y + row * scale,
                                scale as int,
                            );
                        if w < col - 1 {
                            assert(prev);
                        }
                    }
                    assert(self.at(px, py) == if here || prev {
                        color
                    } else {
                        start.at(px, py)
                    });
                }
            }
        }
    }

    /// Inks glyph `c` at `(cx, y)`.
    fn draw_glyph(&mut self, c: char, cx: u32, y: u32, scale: u32, color: Rgb)
        requires
            old(self).wf(),
            cx + 5 * scale <= u32::MAX,
            y + 7 * scale <= u32::MAX,
        ensures
            final(self).wf(),
            final(self).width == old(self).width,
            final(self).height == old(self).height,
            forall|px: int, py: int|
                0 <= px < old(self).width && 0 <= py < old(self).height ==> #[trigger] final(self).at(px, py)
                    == if glyph_ink(c, 7, cx as int, y as int, scale as int, px, py) {
                    color
                } else {
                    old(self).at(px, py)
                },
    {
        let ghost start = *self;
        let glyph = glyph_5x7(c);
        let mut row: u32 = 0;
        while row < 7
            invariant
                self.wf(),
                self.width == start.width,
                self.height == start.height,
                start.wf(),
                glyph@ == glyph_rows(c),
                cx + 5 * scale <= u32::MAX,
                y + 7 * scale <= u32::MAX,
                row <= 7,
                forall|px: int, py: int|
                    0 <= px < start.width && 0 <= py < start.height ==> #[trigger] self.at(px, py) == if glyph_ink(
                        c,
                        row as int,
                        cx as int,
                        y as int,
                        scale as int,
                        px,
                        py,
                    ) {
                        color
                    } else {
                        start.at(px, py)
                    },
            decreases 7 - row,
        {
            let bits = glyph[row as usize];
            self.draw_glyph_row(c, bits, row, cx, y, scale, color);
            row += 1;
            proof {
                assert forall|px: int, py: int|
                    0 <= px < start.width && 0 <= py < start.height implies #[trigger] self.at(px, py)
                    == if glyph_ink(c, row as int, cx as int, y as int, scale as int, px, py) {
                    color
                } else {
                    start.at(px, py)
                } by {
                    let here = row_ink(c, row - 1, 5, cx as int, y as int, scale as int, px, py);
                    let prev = glyph_ink(c, row - 1, cx as int, y as int, scale as int, px, py);
                    if glyph_ink(c, row as int, cx as int, y as int, scale as int, px, py) {
                        let w = choose|w: int|
                            0 <= w < row && #[trigger] row_ink(
                                c,
                                w,
                                5,
                                cx as int,
                                y as int,
                                scale as int,
                                px,
                                py,
                            );
                        if w < row - 1 {
                            assert(prev);
                        }
                    }
                    assert(self.at(px, py) == if here || prev {
                        color
                    } else {
                        start.at(px, py)
                    });
                }
            }
        }
    }

    /// Writes `text` in the 5x7 font with its top left corner at `(x, y)`,
    /// each font pixel a square of side `scale` and each character six
    /// squares wide.
    pub fn draw_marker(&mut self, text: &str, x: u32, y: u32, scale: u32, color: Rgb)
        requires
            old(self).wf(),
            x + 6 * scale * text@.len() <= u32::MAX,
            y + 7 * scale <= u32::MAX,
        ensures
            final(self).wf(),
            final(self).width == old(self).width,
            final(self).height == old(self).height,
            forall|px: int, py: int|
                0 <= px < old(self).width && 0 <= py < old(self).height ==> #[trigger] final(self).at(px, py)
                    == if text_ink(text@, text@.len() as int, x as int, y as int, scale as int, px, py) {
                    color
                } else {
                    old(self).at(px, py)
                },
    {
        let ghost start = *self;
        let chars = crate::text::chars_of(text);
        let mut cursor: u32 = x;
        let mut k: usize = 0;
        while k < chars.len()
            invariant
                self.wf(),
                self.width == start.width,
                self.height == start.height,
                start.wf(),
                chars@ == text@,
                x + 6 * scale * text@.len() <= u32::MAX,
                y + 7 * scale <= u32::MAX,
                k <= chars.len(),
                cursor == x + k * 6 * scale,
                forall|px: int, py: int|
                    0 <= px < start.width && 0 <= py < start.height ==> #[trigger] self.at(px, py) == if text_ink(
                        text@,
                        k as int,
                        x as int,
                        y as int,
                        scale as int,
                        px,
                        py,
                    ) {
                        color
                    } else {
                        start.at(px, py)
                    },
            decreases chars.len() - k,
        {
            proof {
                assert(k * 6 * scale + 6 * scale <= 6 * scale * text@.len()) by (nonlinear_arith)
                    requires
                        k < text@.len(),
                ;
            }
            let c = chars[k];
            self.draw_glyph(c, cursor, y, scale, color);
            let ghost old_k = k as int;
            cursor = cursor + 6 * scale;
            k += 1;
            proof {
                assert(cursor == x + k * 6 * scale) by (nonlinear_arith)
                    requires
                        cursor == x + old_k * 6 * scale + 6 * scale,
                        k == old_k + 1,
                ;
                assert forall|px: int, py: int|
                    0 <= px < start.width && 0 <= py < start.height implies #[trigger] self.at(px, py)
                    == if text_ink(text@, k as int, x as int, y as int, scale as int, px, py) {
                    color
                } else {
                    start.at(px, py)
                } by {
                    let here = glyph_ink(text@[old_k], 7, x + old_k * 6 * scale, y as int, scale as int, px, py);
                    let prev = text_ink(text@, old_k, x as int, y as int, scale as int, px, py);
                    if text_ink(text@, k as int, x as int, y as int, scale as int, px, py) {
                        let w = choose|w: int|
                            0 <= w < k && #[trigger] glyph_ink(
                                text@[w],
                                7,
                                x + w * 6 * scale,
                                y as int,
                                scale as int,
                                px,
                                py,
                            );
                        if w < old_k {
                            assert(prev);
                        }
                    }
                    assert(self.at(px, py) == if here || prev {
                        color
                    } else {
                        start.at(px, py)
                    });
                }
            }
        }
    }

    fn set_pixel(&mut self, px: u32, py: u32, color: Rgb)
        requires
            old(self).wf(),
            px < old(self).width,
            py < old(self).height,
        ensures
            final(self).wf(),
            final(self).width == old(self).width,
            final(self).height == old(self).height,
            forall|qx: int, qy: int|
                0 <= qx < old(self).width && 0 <= qy < old(self).height ==> #[trigger] final(self).at(qx, qy)
                    == if qx == px && qy == py {
                    color
                } else {
                    old(self).at(qx, qy)
                },
    {
        let ghost before = self.rows@;
        self.rows[py as usize][px as usize] = color;
        proof {
            assert forall|qx: int, qy: int|
                0 <= qx < old(self).width && 0 <= qy < old(self).height implies #[trigger] self.at(qx, qy)
                == if qx == px && qy == py {
                color
            } else {
                old(self).at(qx, qy)
            } by {
                if qy != py {
                    assert(self.rows@[qy] == before[qy]);
                }
            }
            assert forall|r: int| 0 <= r < self.height implies #[trigger] self.rows@[r]@.len() == self.width by {
                if r != py {
                    assert(self.rows@[r] == before[r]);
                }
            }
        }
    }
}

/// The white 1280x720 picture of a generated photo, with its marker written
/// in near-black at (40, 80) with blocks of six pixels.
pub fn marked_canvas(marker: &str) -> (r: Canvas)
    requires
        marker@.len() <= 100_000_000,
    ensures
        r.wf(),
        r.width == 1280,
        r.height == 720,
        forall|px: int, py: int|
            0 <= px < 1280 && 0 <= py < 720 ==> #[trigger] r.at(px, py) == if text_ink(
                marker@,
                marker@.len() as int,
                40,
                80,
                6,
                px,
                py,
            ) {
                (10u8, 10u8, 10u8)
            } else {
                (255u8, 255u8, 255u8)
            },
{
    let mut canvas = Canvas::filled(1280, 720, (255u8, 255u8, 255u8));
    canvas.draw_marker(marker, 40, 80, 6, (10u8, 10u8, 10u8));
    canvas
}

} // verus!
