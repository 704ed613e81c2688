//! The text console on the linear framebuffer: an 8x8-pixel character
//! grid with a cursor that wraps at the right edge and scrolls at the
//! bottom.
//!
//! [`Framebuffer`] keeps the geometry and the cursor and says what to
//! draw: each call returns the [`DrawOp`]s to carry out on video memory,
//! in order, and computes where pixels go. The video memory itself
//! belongs to the kernel binary.
use vstd::prelude::*;

verus! {

pub const CHAR_W: usize = 8;
pub const CHAR_H: usize = 8;

/// An RGB colour.
pub type Color = (u8, u8, u8);

pub const WHITE: Color = (220, 220, 220);
pub const BLACK: Color = (0, 0, 0);
pub const GREEN: Color = (80, 220, 80);
pub const RED: Color = (255, 0, 0);
pub const YELLOW: Color = (255, 220, 0);

/// The order of the colour bytes of a pixel in video memory.
#[derive(PartialEq, Eq, Structural, Clone, Copy, Debug)]
pub enum PixelFormat {
    Rgb,
    Bgr,
    /// Any other layout; drawn as RGB.
    Other,
}

/// One step of drawing.
#[derive(PartialEq, Eq, Clone, Copy, Debug)]
pub enum DrawOp {
    /// Draw character `ch` in cell (`col`, `row`), foreground `color` on black.
    Glyph { col: usize, row: usize, ch: u8, color: Color },
    /// Move every character row up by one and blank the last row.
    Scroll,
    /// Blank the whole screen.
    Clear,
}

/// The console's geometry and cursor.
pub struct Framebuffer {
    width: usize,
    height: usize,
    /// Bytes from one pixel row to the next.
    stride: usize,
    /// Bytes per pixel.
    bpp: usize,
    format: PixelFormat,
    col: usize,
    row: usize,
}

/// A console as a mathematical value.
pub struct FbView {
    pub width: usize,
    pub height: usize,
    pub stride: usize,
    pub bpp: usize,
    pub format: PixelFormat,
    pub col: usize,
    pub row: usize,
}

impl View for Framebuffer {
    type V = FbView;

    closed spec fn view(&self) -> FbView {
        FbView {
            width: self.width,
            height: self.height,
            stride: self.stride,
            bpp: self.bpp,
            format: self.format,
            col: self.col,
            row: self.row,
        }
    }
}

pub open spec fn cols(v: FbView) -> int {
    v.width as int / CHAR_W as int
}

pub open spec fn rows(v: FbView) -> int {
    v.height as int / CHAR_H as int
}

/// The screen has at least one character row and the cursor is on it:
/// on a row of the screen, and on a column of it (or at column 0 of a
/// screen less than one character wide).
pub open spec fn cursor_ok(v: FbView) -> bool {
    &&& rows(v) >= 1
    &&& v.row < rows(v)
    &&& (v.col == 0 || v.col < cols(v))
}

/// Every pixel offset that drawing computes fits in a `usize`.
pub open spec fn geometry_ok(v: FbView) -> bool {
    v.height * v.stride + v.width * v.bpp <= usize::MAX
}

/// A usable console.
pub open spec fn fb_ok(v: FbView) -> bool {
    cursor_ok(v) && geometry_ok(v)
}

/// The console after moving the cursor.
pub open spec fn at(v: FbView, col: int, row: int) -> FbView {
    FbView { col: col as usize, row: row as usize, ..v }
}

/// Printing one byte: a newline moves to the start of the next row; any
/// other byte is drawn at the cursor, which then moves right and wraps to
/// the next row at the right edge. Moving below the last row scrolls and
/// keeps the cursor on the last row.
pub open spec fn print_step(v: FbView, ch: u8, color: Color) -> (FbView, Seq<DrawOp>) {
    let glyph = DrawOp::Glyph { col: v.col, row: v.row, ch, color };
    let (col, row, ops) = if ch == 10 {
        (0int, v.row + 1, Seq::<DrawOp>::empty())
    } else if v.col + 1 >= cols(v) {
        (0int, v.row + 1, seq![glyph])
    } else {
        (v.col + 1, v.row as int, seq![glyph])
    };
    if row >= rows(v) {
        (at(v, col, rows(v) - 1), ops.push(DrawOp::Scroll))
    } else {
        (at(v, col, row), ops)
    }
}

/// Printing a string of bytes, one after the other.
pub open spec fn print_run(v: FbView, s: Seq<u8>, color: Color) -> (FbView, Seq<DrawOp>)
    decreases s.len(),
{
    if s.len() == 0 {
        (v, Seq::empty())
    } else {
        let (v1, ops1) = print_run(v, s.drop_last(), color);
        let (v2, ops2) = print_step(v1, s.last(), color);
        (v2, ops1 + ops2)
    }
}

pub proof fn lemma_print_step_keeps_cursor_ok(v: FbView, ch: u8, color: Color)
    requires
        cursor_ok(v),
    ensures
        cursor_ok(print_step(v, ch, color).0),
        print_step(v, ch, color).0.width == v.width,
        print_step(v, ch, color).0.height == v.height,
        print_step(v, ch, color).0.stride == v.stride,
        print_step(v, ch, color).0.bpp == v.bpp,
        print_step(v, ch, color).0.format == v.format,
{
}

/// Whatever is printed, the cursor stays on the screen.
pub proof fn lemma_print_keeps_cursor_on_screen(v: FbView, s: Seq<u8>, color: Color)
    requires
        cursor_ok(v),
    ensures
        cursor_ok(print_run(v, s, color).0),
        print_run(v, s, color).0.width == v.width,
        print_run(v, s, color).0.height == v.height,
        print_run(v, s, color).0.stride == v.stride,
        print_run(v, s, color).0.bpp == v.bpp,
        print_run(v, s, color).0.format == v.format,
    decreases s.len(),
{
    if s.len() > 0 {
        lemma_print_keeps_cursor_on_screen(v, s.drop_last(), color);
        lemma_print_step_keeps_cursor_ok(print_run(v, s.drop_last(), color).0, s.last(), color);
    }
}

/// Printing a character that does not reach the right edge, then erasing
/// it, puts the cursor back where it was.
pub proof fn lemma_backspace_undoes_print(v: FbView, ch: u8, color: Color)
    requires
        cursor_ok(v),
        ch != 10,
        v.col + 1 < cols(v),
    ensures
        print_step(v, ch, color).0.col == v.col + 1,
        at(print_step(v, ch, color).0, v.col as int, print_step(v, ch, color).0.row as int) == v,
{
}

/// A newline moves the cursor to column 0 of the next row, whatever the
/// column, and draws nothing; on the last row it scrolls once and the
/// cursor stays on the last row.
pub proof fn lemma_newline_starts_next_row(v: FbView, color: Color)
    requires
        cursor_ok(v),
    ensures
        print_step(v, 10, color).0.col == 0,
        v.row + 1 < rows(v) ==> print_step(v, 10, color).0.row == v.row + 1 && print_step(v, 10, color).1
            == Seq::<DrawOp>::empty(),
        v.row + 1 >= rows(v) ==> print_step(v, 10, color).0.row == v.row && print_step(v, 10, color).1
            == seq![DrawOp::Scroll],
{
}

/// Any other byte is drawn at the cursor. The cursor then moves one column
/// right; past the right edge it goes to column 0 of the next row, and past
/// the last row the screen scrolls once and the cursor stays on the last row.
pub proof fn lemma_char_drawn_at_cursor(v: FbView, ch: u8, color: Color)
    requires
        cursor_ok(v),
        ch != 10,
    ensures
        print_step(v, ch, color).1[0] == (DrawOp::Glyph { col: v.col, row: v.row, ch, color }),
        v.col + 1 < cols(v) ==> print_step(v, ch, color).0.col == v.col + 1 && print_step(v, ch, color).0.row
            == v.row && print_step(v, ch, color).1.len() == 1,
        v.col + 1 >= cols(v) && v.row + 1 < rows(v) ==> print_step(v, ch, color).0.col == 0 && print_step(
            v,
            ch,
            color,
        ).0.row == v.row + 1 && print_step(v, ch, color).1.len() == 1,
        v.col + 1 >= cols(v) && v.row + 1 >= rows(v) ==> print_step(v, ch, color).0.col == 0 && print_step(
            v,
            ch,
            color,
        ).0.row == v.row && print_step(v, ch, color).1 == seq![
            DrawOp::Glyph { col: v.col, row: v.row, ch, color },
            DrawOp::Scroll,
        ],
{
    let glyph = DrawOp::Glyph { col: v.col, row: v.row, ch, color };
    if v.col + 1 >= cols(v) && v.row + 1 >= rows(v) {
        assert(print_step(v, ch, color).1 =~= seq![glyph, DrawOp::Scroll]);
    }
}

/// Where a scroll copies and blanks: everything from `source` (the second
/// character row) on, `count` bytes, moves to offset 0; then the pixel rows
/// from `blank_from` to `blank_from + 8` are blanked.
#[derive(PartialEq, Eq, Structural, Clone, Copy, Debug)]
pub struct ScrollSpan {
    pub source: usize,
    pub count: usize,
    pub blank_from: usize,
}

impl Framebuffer {
    /// A console of `width` x `height` pixels whose rows are `stride`
    /// pixels apart, with `bpp` bytes per pixel; the cursor at the top left.
    pub fn new(width: usize, height: usize, stride: usize, bpp: usize, format: PixelFormat) -> (fb: Self)
        requires
            stride * bpp <= usize::MAX,
        ensures
            fb@ == (FbView { width, height, stride: (stride * bpp) as usize, bpp, format, col: 0, row: 0 }),
    {
        Framebuffer { width, height, stride: stride * bpp, bpp, format, col: 0, row: 0 }
    }

    pub fn width(&self) -> (r: usize)
        ensures
            r == self@.width,
    {
        self.width
    }

    pub fn height(&self) -> (r: usize)
        ensures
            r == self@.height,
    {
        self.height
    }

    /// Bytes from one pixel row to the next.
    pub fn stride(&self) -> (r: usize)
        ensures
            r == self@.stride,
    {
        self.stride
    }

    /// Whether the console can print: it has a character row, the cursor
    /// is on the screen, and pixel offsets fit in a `usize`.
    pub fn ready(&self) -> (r: bool)
        ensures
            r == fb_ok(self@),
    {
        let area = self.height.checked_mul(self.stride);
        let row = self.width.checked_mul(self.bpp);
        let fits = match (area, row) {
            (Some(a), Some(w)) => a.checked_add(w).is_some(),
            _ => false,
        };
        fits && self.height / CHAR_H >= 1 && self.row < self.height / CHAR_H && (self.col == 0 || self.col
            < self.width / CHAR_W)
    }

    pub fn cols(&self) -> (r: usize)
        ensures
            r == cols(self@),
    {
        self.width / CHAR_W
    }

    pub fn rows(&self) -> (r: usize)
        ensures
            r == rows(self@),
    {
        self.height / CHAR_H
    }

    /// The cursor: column and row.
    pub fn cursor(&self) -> (r: (usize, usize))
        ensures
            r == (self@.col, self@.row),
    {
        (self.col, self.row)
    }

    pub fn format(&self) -> (r: PixelFormat)
        ensures
            r == self@.format,
    {
        self.format
    }

    /// The byte offset of pixel (`x`, `y`) in video memory, or `None` when
    /// it is off the screen.
    pub fn pixel_offset(&self, x: usize, y: usize) -> (r: Option<usize>)
        requires
            x < self@.width && y < self@.height ==> y * self@.stride + x * self@.bpp <= usize::MAX,
        ensures
            (x >= self@.width || y >= self@.height) ==> r is None,
            (x < self@.width && y < self@.height) ==> r == Some((y * self@.stride + x * self@.bpp) as usize),
    {
        if x >= self.width || y >= self.height {
            return None;
        }
        Some(y * self.stride + x * self.bpp)
    }

    /// Prints one byte.
    pub fn print_byte(&mut self, ch: u8, color: Color) -> (ops: Vec<DrawOp>)
        requires
            cursor_ok(old(self)@),
        ensures
            (final(self)@, ops@) == print_step(old(self)@, ch, color),
            cursor_ok(final(self)@),
    {
        proof {
            lemma_print_step_keeps_cursor_ok(self@, ch, color);
        }
        let mut ops: Vec<DrawOp> = Vec::new();
        let rows = self.rows();
        if ch == 10 {
            self.col = 0;
            self.row = self.row + 1;
        } else {
            ops.push(DrawOp::Glyph { col: self.col, row: self.row, ch, color });
            if self.col + 1 >= self.cols() {
                self.col = 0;
                self.row = self.row + 1;
            } else {
                self.col = self.col + 1;
            }
        }
        if self.row >= rows {
            ops.push(DrawOp::Scroll);
            self.row = rows - 1;
        }
        proof {
            let (v, o) = print_step(old(self)@, ch, color);
            assert(self@ == v);
            assert(ops@ =~= o);
        }
        ops
    }

    /// Prints a string of bytes.
    pub fn print_str(&mut self, s: &[u8], color: Color) -> (ops: Vec<DrawOp>)
        requires
            cursor_ok(old(self)@),
        ensures
            (final(self)@, ops@) == print_run(old(self)@, s@, color),
            cursor_ok(final(self)@),
    {
        let mut ops: Vec<DrawOp> = Vec::new();
        let mut i: usize = 0;
        while i < s.len()
            invariant
                i <= s@.len(),
                cursor_ok(self@),
                (self@, ops@) == print_run(old(self)@, s@.take(i as int), color),
            decreases s@.len() - i,
        {
            proof {
                assert(s@.take(i + 1).drop_last() =~= s@.take(i as int));
            }
            let mut more = self.print_byte(s[i], color);
            ops.append(&mut more);
            i = i + 1;
        }
        assert(s@.take(s@.len() as int) =~= s@);
        ops
    }

    /// Blanks the screen and puts the cursor at the top left.
    pub fn clear(&mut self) -> (op: DrawOp)
        ensures
            op == DrawOp::Clear,
            final(self)@ == at(old(self)@, 0, 0),
    {
        self.col = 0;
        self.row = 0;
        DrawOp::Clear
    }

    /// Erases the character left of the cursor, on the cursor's row only:
    /// the cursor moves back and a blank is drawn there in black.
    pub fn backspace(&mut self) -> (op: Option<DrawOp>)
        ensures
            old(self)@.col == 0 ==> op is None && final(self)@ == old(self)@,
            old(self)@.col > 0 ==> final(self)@ == at(old(self)@, old(self)@.col - 1, old(self)@.row as int)
                && op == Some(DrawOp::Glyph { col: (old(self)@.col - 1) as usize, row: old(self)@.row, ch: 32, color: BLACK }),
    {
        if self.col > 0 {
            self.col = self.col - 1;
            Some(DrawOp::Glyph { col: self.col, row: self.row, ch: 32, color: BLACK })
        } else {
            None
        }
    }

    /// The copy and the blanking that a scroll makes.
    pub fn scroll_span(&self) -> (r: ScrollSpan)
        requires
            rows(self@) >= 1,
            rows(self@) * (CHAR_H * self@.stride) <= usize::MAX,
        ensures
            r.source == CHAR_H * self@.stride,
            r.count == (rows(self@) - 1) * (CHAR_H * self@.stride),
            r.blank_from == (rows(self@) - 1) * CHAR_H,
    {
        let rows = self.rows();
        let ghost st = self.stride as int;
        let ghost rw = rows as int;
        assert(8 * st <= rw * (8 * st) && rw * (8 * st) - 8 * st == (rw - 1) * (8 * st)) by (nonlinear_arith)
            requires
                rw >= 1,
                st >= 0,
        ;
        let row_bytes = CHAR_H * self.stride;
        let total = rows * row_bytes;
        ScrollSpan { source: row_bytes, count: total - row_bytes, blank_from: (rows - 1) * CHAR_H }
    }
}

/// The three colour bytes of a pixel, in the order video memory wants them.
pub fn pixel_bytes(format: PixelFormat, color: Color) -> (r: [u8; 3])
    ensures
        format == PixelFormat::Bgr ==> r@ == seq![color.2, color.1, color.0],
        format != PixelFormat::Bgr ==> r@ == seq![color.0, color.1, color.2],
{
    let r = match format {
        PixelFormat::Bgr => [color.2, color.1, color.0],
        _ => [color.0, color.1, color.2],
    };
    assert(format == PixelFormat::Bgr ==> r@ =~= seq![color.2, color.1, color.0]);
    assert(format != PixelFormat::Bgr ==> r@ =~= seq![color.0, color.1, color.2]);
    r
}

/// The font glyph of a byte: printable ASCII from the space (glyph 0) to
/// 127; anything else shows glyph 0.
pub fn glyph_index(ch: u8) -> (r: usize)
    ensures
        32 <= ch < 128 ==> r == ch - 32,
        !(32 <= ch < 128) ==> r == 0,
{
    if ch >= 32 && ch < 128 {
        (ch - 32) as usize
    } else {
        0
    }
}

} // verus!
