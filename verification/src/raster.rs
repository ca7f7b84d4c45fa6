//! Text rasterisation: lays the glyphs of a text out on a white canvas, left
//! to right and top to bottom, with simple line wrapping.
//!
//! A canvas is a row-major RGBA8 buffer: the pixel in row `dy` and column
//! `dx` of a canvas `w` pixels wide occupies the four bytes that start at
//! `(dy * w + dx) * 4`.

use crate::chars::chars_of;
use vstd::arithmetic::div_mod::{
    lemma_fundamental_div_mod, lemma_fundamental_div_mod_converse, lemma_mod_bound,
};
use vstd::prelude::*;

verus! {

/// Distance between two baselines, in pixels.
pub const LINE_HEIGHT: i64 = 25;

/// Blank border kept on every side of the canvas, in pixels.
pub const MARGIN: i64 = 16;

/// What a glyph is, as plain values.
pub struct GlyphView {
    /// How far the pen moves after the glyph.
    pub advance: int,
    /// Horizontal offset of the bitmap's left edge from the pen.
    pub xmin: int,
    /// Width of the coverage bitmap.
    pub width: nat,
    /// Height of the coverage bitmap.
    pub height: nat,
    /// Row-major coverage, one byte per pixel of the bitmap.
    pub coverage: Seq<u8>,
}

/// One rasterised character: its metrics and its coverage bitmap, which
/// always holds `width * height` bytes.
#[derive(Debug)]
pub struct Glyph {
    advance: i32,
    xmin: i32,
    width: usize,
    height: usize,
    coverage: Vec<u8>,
}

impl View for Glyph {
    type V = GlyphView;

    closed spec fn view(&self) -> GlyphView {
        GlyphView {
            advance: self.advance as int,
            xmin: self.xmin as int,
            width: self.width as nat,
            height: self.height as nat,
            coverage: self.coverage@,
        }
    }
}

impl Glyph {
    #[verifier::type_invariant]
    spec fn well_formed(self) -> bool {
        self.coverage@.len() == self.width * self.height
    }

    /// A glyph from its metrics and coverage; `None` unless `coverage`
    /// holds exactly `width * height` bytes.
    pub fn new(advance: i32, xmin: i32, width: usize, height: usize, coverage: Vec<u8>) -> (out:
        Option<Glyph>)
        ensures
            out is Some <==> coverage@.len() == width * height,
            out is Some ==> out->0@ == (GlyphView {
                advance: advance as int,
                xmin: xmin as int,
                width: width as nat,
                height: height as nat,
                coverage: coverage@,
            }),
    {
        let len = coverage.len();
        let fits = match width.checked_mul(height) {
            Some(area) => area == len,
            None => false,
        };
        if fits {
            Some(Glyph { advance, xmin, width, height, coverage })
        } else {
            None
        }
    }

    /// How far the pen moves after the glyph.
    pub fn advance(&self) -> (out: i32)
        ensures
            out == self@.advance,
    {
        self.advance
    }

    /// Horizontal offset of the bitmap's left edge from the pen.
    pub fn xmin(&self) -> (out: i32)
        ensures
            out == self@.xmin,
    {
        self.xmin
    }

    /// Width of the coverage bitmap.
    pub fn width(&self) -> (out: usize)
        ensures
            out == self@.width,
    {
        self.width
    }

    /// Height of the coverage bitmap.
    pub fn height(&self) -> (out: usize)
        ensures
            out == self@.height,
    {
        self.height
    }

    /// The coverage bitmap, row by row.
    pub fn coverage(&self) -> (out: &Vec<u8>)
        ensures
            out@ == self@.coverage,
            out@.len() == self@.width * self@.height,
    {
        proof {
            use_type_invariant(self);
        }
        &self.coverage
    }

    /// A glyph that draws nothing and moves the pen by `advance`.
    pub fn blank(advance: i32) -> (out: Glyph)
        ensures
            out@ == (GlyphView {
                advance: advance as int,
                xmin: 0,
                width: 0,
                height: 0,
                coverage: Seq::empty(),
            }),
    {
        Glyph { advance, xmin: 0, width: 0, height: 0, coverage: Vec::new() }
    }
}

/// A typeface as the rasteriser reads it: the glyphs of some characters, and
/// the glyph that stands for every other character.
#[derive(Debug)]
pub struct FontFace {
    pub glyphs: Vec<(char, Glyph)>,
    pub fallback: Glyph,
}

/// The glyph that `table` gives for `ch`: that of the first entry for `ch`,
/// or `fallback` where there is none.
pub open spec fn glyph_in(table: Seq<(char, Glyph)>, fallback: GlyphView, ch: char) -> GlyphView
    decreases table.len(),
{
    if table.len() == 0 {
        fallback
    } else if table[0].0 == ch {
        table[0].1@
    } else {
        glyph_in(table.drop_first(), fallback, ch)
    }
}

impl FontFace {
    /// The glyph that this face draws for `ch`.
    pub open spec fn glyph_of(&self, ch: char) -> GlyphView {
        glyph_in(self.glyphs@, self.fallback@, ch)
    }

    /// Looks up the glyph for `ch`.
    pub fn glyph(&self, ch: char) -> (g: &Glyph)
        ensures
            g@ == self.glyph_of(ch),
    {
        let mut i: usize = 0;
        assert(self.glyphs@.subrange(0, self.glyphs@.len() as int) =~= self.glyphs@);
        while i < self.glyphs.len()
            invariant
                i <= self.glyphs@.len(),
                self.glyph_of(ch) == glyph_in(
                    self.glyphs@.subrange(i as int, self.glyphs@.len() as int),
                    self.fallback@,
                    ch,
                ),
            decreases self.glyphs@.len() - i,
        {
            let ghost rest = self.glyphs@.subrange(i as int, self.glyphs@.len() as int);
            assert(rest[0] == self.glyphs@[i as int]);
            if self.glyphs[i].0 == ch {
                return &self.glyphs[i].1;
            }
            assert(rest.drop_first() =~= self.glyphs@.subrange(i + 1, self.glyphs@.len() as int));
            i += 1;
        }
        &self.fallback
    }
}

/// A canvas of `w` by `h` pixels, all of them opaque white.
pub open spec fn blank_canvas(w: int, h: int) -> Seq<u8> {
    Seq::new((w * h * 4) as nat, |i: int| 255u8)
}

/// Whether the glyph `g`, with the top left corner of its bitmap at column
/// `gx` and row `gy`, leaves ink on the pixel in column `dx` and row `dy`.
pub open spec fn covered(g: GlyphView, gx: int, gy: int, dx: int, dy: int) -> bool {
    &&& 0 <= dx - gx < g.width
    &&& 0 <= dy - gy < g.height
    &&& g.coverage[(dy - gy) * g.width + (dx - gx)] != 0
}

/// The byte that the glyph writes to channel `channel` of a covered pixel:
/// grey `255 - coverage` for red, green and blue, and full alpha.
pub open spec fn ink(g: GlyphView, gx: int, gy: int, dx: int, dy: int, channel: int) -> u8 {
    if channel == 3 {
        255u8
    } else {
        (255 - g.coverage[(dy - gy) * g.width + (dx - gx)]) as u8
    }
}

/// The canvas after the rows above `row_end`, and the columns left of
/// `col_end` in row `row_end`, have received the glyph's ink.
pub open spec fn blit_upto(
    canvas: Seq<u8>,
    w: int,
    g: GlyphView,
    gx: int,
    gy: int,
    row_end: int,
    col_end: int,
) -> Seq<u8> {
    Seq::new(
        canvas.len(),
        |i: int|
            {
                let dx = (i / 4) % w;
                let dy = (i / 4) / w;
                if covered(g, gx, gy, dx, dy) && (dy < row_end || (dy == row_end && dx < col_end)) {
                    ink(g, gx, gy, dx, dy, i % 4)
                } else {
                    canvas[i]
                }
            },
    )
}

/// The canvas, `w` pixels wide, after the glyph `g` was drawn with the top
/// left corner of its bitmap at column `gx` and row `gy`: every covered pixel
/// of the canvas takes the glyph's ink, every other byte stays.
pub open spec fn blit(canvas: Seq<u8>, w: int, g: GlyphView, gx: int, gy: int) -> Seq<u8> {
    Seq::new(
        canvas.len(),
        |i: int|
            {
                let dx = (i / 4) % w;
                let dy = (i / 4) / w;
                if covered(g, gx, gy, dx, dy) {
                    ink(g, gx, gy, dx, dy, i % 4)
                } else {
                    canvas[i]
                }
            },
    )
}

/// The canvas after the characters of `text` from position `i` on were laid
/// out with the pen at column `x` and baseline `y`.
///
/// A line feed moves the pen to the left margin of the next line. Any other
/// character first wraps to the next line if its advance would reach the
/// right margin, is drawn with the bottom of its bitmap on the baseline, and
/// moves the pen by its advance (by one pixel at least). Layout stops when a
/// new line would reach the bottom margin.
pub open spec fn draw_from(
    canvas: Seq<u8>,
    w: int,
    h: int,
    text: Seq<char>,
    face: FontFace,
    i: int,
    x: int,
    y: int,
) -> Seq<u8>
    decreases text.len() - i,
{
    if i < 0 || i >= text.len() {
        canvas
    } else if text[i] == '\n' {
        if y + LINE_HEIGHT >= h - MARGIN {
            canvas
        } else {
            draw_from(canvas, w, h, text, face, i + 1, MARGIN as int, y + LINE_HEIGHT)
        }
    } else {
        let g = face.glyph_of(text[i]);
        let wraps = x + g.advance >= w - MARGIN;
        let x1 = if wraps { MARGIN as int } else { x };
        let y1 = if wraps { y + LINE_HEIGHT } else { y };
        if wraps && y1 >= h - MARGIN {
            canvas
        } else {
            draw_from(
                blit(canvas, w, g, x1 + g.xmin, y1 - g.height),
                w,
                h,
                text,
                face,
                i + 1,
                x1 + if g.advance > 1 { g.advance } else { 1 },
                y1,
            )
        }
    }
}

/// The bitmap of `text` on a canvas of `w` by `h` pixels: white where no
/// face is given, else the text laid out from the top left margin.
pub open spec fn rendered_text(w: int, h: int, text: Seq<char>, face: Option<FontFace>) -> Seq<u8> {
    match face {
        None => blank_canvas(w, h),
        Some(f) => draw_from(
            blank_canvas(w, h),
            w,
            h,
            text,
            f,
            0,
            MARGIN as int,
            MARGIN + LINE_HEIGHT,
        ),
    }
}

/// The face behind an optional reference.
pub open spec fn face_behind(face: Option<&FontFace>) -> Option<FontFace> {
    match face {
        Some(f) => Some(*f),
        None => None,
    }
}

/// A cell of a grid with `cols` columns has an index below the grid's size.
proof fn lemma_cell_index(r: int, c: int, rows: int, cols: int)
    requires
        0 <= r < rows,
        0 <= c < cols,
    ensures
        0 <= r * cols + c < rows * cols,
        0 <= r * cols <= rows * cols - cols,
{
    assert(r * cols + cols <= rows * cols) by (nonlinear_arith)
        requires
            0 <= r < rows,
            0 <= cols,
    ;
    assert(0 <= r * cols) by (nonlinear_arith)
        requires
            0 <= r,
            0 <= cols,
    ;
}

/// The four bytes of the pixel in row `dy` and column `dx` are the bytes
/// whose index `i` has `(i / 4) / w == dy` and `(i / 4) % w == dx`.
proof fn lemma_pixel_bytes(w: int, dy: int, dx: int, i: int)
    requires
        0 < w,
        0 <= dx < w,
    ensures
        (i / 4 == dy * w + dx) <==> ((i / 4) / w == dy && (i / 4) % w == dx),
{
    let p = i / 4;
    lemma_fundamental_div_mod(p, w);
    lemma_mod_bound(p, w);
    if p == dy * w + dx {
        lemma_fundamental_div_mod_converse(p, w, dy, dx);
    }
    if p / w == dy && p % w == dx {
        assert(w * (p / w) == dy * w) by (nonlinear_arith)
            requires
                p / w == dy,
        ;
    }
}

/// Where byte `i` of a canvas `w` pixels wide and `h` pixels high lies.
proof fn lemma_pixel_coords(w: int, h: int, i: int)
    requires
        0 < w,
        0 <= i < w * h * 4,
    ensures
        0 <= (i / 4) % w < w,
        0 <= (i / 4) / w < h,
        i / 4 == ((i / 4) / w) * w + (i / 4) % w,
{
    let p = i / 4;
    lemma_fundamental_div_mod(p, w);
    lemma_mod_bound(p, w);
    let q = p / w;
    assert(w * q == q * w) by (nonlinear_arith);
    assert(q >= 0) by (nonlinear_arith)
        requires
            q * w > -w,
            w > 0,
    ;
    assert(q < h) by (nonlinear_arith)
        requires
            q * w < w * h,
            w > 0,
    ;
}

/// Draws the glyph `g` on a canvas of `width` by `height` pixels, with the
/// left edge of its bitmap in column `gx` and the bottom of its bitmap on the
/// baseline `y`.
pub fn blit_glyph(pixels: &mut Vec<u8>, width: u32, height: u32, g: &Glyph, gx: i64, y: i64)
    requires
        old(pixels)@.len() == width * height * 4,
    ensures
        final(pixels)@ == blit(old(pixels)@, width as int, g@, gx as int, y - g@.height),
{
    proof {
        use_type_invariant(g);
    }
    let ghost orig = pixels@;
    let ghost gv = g@;
    let ghost wi = width as int;
    let ghost hi = height as int;
    let ghost gxi = gx as int;
    let ghost gy = y - gv.height;
    if width == 0 {
        assert(wi * hi * 4 == 0) by (nonlinear_arith)
            requires
                wi == 0,
        ;
        assert(pixels@ =~= blit(orig, wi, gv, gxi, gy));
        return ;
    }
    let area: usize = g.coverage.len();
    let total: usize = pixels.len();
    let top: i128 = y as i128 - g.height as i128;
    let right: i128 = gx as i128 + g.width as i128;
    let dy_lo: i64 = if top > 0 { top as i64 } else { 0 };
    let dy_hi: i64 = if y < height as i64 { y } else { height as i64 };
    let dx_lo: i64 = if gx > 0 { gx } else { 0 };
    let dx_hi: i64 = if right < width as i128 { right as i64 } else { width as i64 };
    assert(pixels@ =~= blit_upto(orig, wi, gv, gxi, gy, dy_lo as int, 0)) by {
        assert forall|i: int| 0 <= i < orig.len() implies orig[i] == blit_upto(
            orig,
            wi,
            gv,
            gxi,
            gy,
            dy_lo as int,
            0,
        )[i] by {
            lemma_pixel_coords(wi, hi, i);
        }
    }
    let mut dy: i64 = dy_lo;
    while dy < dy_hi
        invariant
            0 < wi == width,
            hi == height,
            gv == g@,
            gxi == gx,
            gy == y - gv.height,
            area == gv.coverage.len() == gv.width * gv.height,
            top == gy,
            right == gxi + gv.width,
            dy_lo == (if top > 0 { top as int } else { 0 }),
            dy_hi == (if y < hi { y as int } else { hi }),
            dx_lo == (if gx > 0 { gx as int } else { 0 }),
            dx_hi == (if right < wi { right as int } else { wi }),
            dy_lo <= dy,
            total == orig.len() == wi * hi * 4,
            pixels@.len() == orig.len(),
            pixels@ == blit_upto(orig, wi, gv, gxi, gy, dy as int, 0),
        decreases dy_hi - dy,
    {
        assert(pixels@ =~= blit_upto(orig, wi, gv, gxi, gy, dy as int, dx_lo as int)) by {
            assert forall|i: int| 0 <= i < orig.len() implies blit_upto(
                orig,
                wi,
                gv,
                gxi,
                gy,
                dy as int,
                0,
            )[i] == blit_upto(orig, wi, gv, gxi, gy, dy as int, dx_lo as int)[i] by {
                lemma_pixel_coords(wi, hi, i);
            }
        }
        let mut dx: i64 = dx_lo;
        while dx < dx_hi
            invariant
                0 < wi == width,
                hi == height,
                gv == g@,
                gxi == gx,
                gy == y - gv.height,
                area == gv.coverage.len() == gv.width * gv.height,
                top == gy,
                right == gxi + gv.width,
                dy_lo == (if top > 0 { top as int } else { 0 }),
                dy_hi == (if y < hi { y as int } else { hi }),
                dx_lo == (if gx > 0 { gx as int } else { 0 }),
                dx_hi == (if right < wi { right as int } else { wi }),
                dy_lo <= dy < dy_hi,
                dx_lo <= dx,
                total == orig.len() == wi * hi * 4,
                pixels@.len() == orig.len(),
                pixels@ == blit_upto(orig, wi, gv, gxi, gy, dy as int, dx as int),
            decreases dx_hi - dx,
        {
            let ghost before = pixels@;
            let row: usize = (dy as i128 - top) as usize;
            let col: usize = (dx as i128 - gx as i128) as usize;
            proof {
                lemma_cell_index(row as int, col as int, gv.height as int, gv.width as int);
                lemma_cell_index(dy as int, dx as int, hi, wi);
                assert(hi * wi == wi * hi) by (nonlinear_arith);
                assert(gv.height * gv.width == gv.width * gv.height) by (nonlinear_arith);
            }
            let a: u8 = g.coverage[row * g.width + col];
            let cell: usize = (dy as usize) * (width as usize) + (dx as usize);
            if a != 0 {
                let v: u8 = 255 - a;
                let idx: usize = cell * 4;
                pixels.set(idx, v);
                pixels.set(idx + 1, v);
                pixels.set(idx + 2, v);
                pixels.set(idx + 3, 255);
            }
            proof {
                assert forall|i: int| 0 <= i < orig.len() implies pixels@[i] == blit_upto(
                    orig,
                    wi,
                    gv,
                    gxi,
                    gy,
                    dy as int,
                    dx + 1,
                )[i] by {
                    lemma_pixel_coords(wi, hi, i);
                    lemma_pixel_bytes(wi, dy as int, dx as int, i);
                    assert(before[i] == blit_upto(orig, wi, gv, gxi, gy, dy as int, dx as int)[i]);
                }
                assert(pixels@ =~= blit_upto(orig, wi, gv, gxi, gy, dy as int, dx + 1));
            }
            dx += 1;
        }
        assert(pixels@ =~= blit_upto(orig, wi, gv, gxi, gy, dy + 1, 0)) by {
            assert forall|i: int| 0 <= i < orig.len() implies blit_upto(
                orig,
                wi,
                gv,
                gxi,
                gy,
                dy as int,
                dx as int,
            )[i] == blit_upto(orig, wi, gv, gxi, gy, dy + 1, 0)[i] by {
                lemma_pixel_coords(wi, hi, i);
            }
        }
        dy += 1;
    }
    assert(pixels@ =~= blit(orig, wi, gv, gxi, gy)) by {
        assert forall|i: int| 0 <= i < orig.len() implies blit_upto(
            orig,
            wi,
            gv,
            gxi,
            gy,
            dy as int,
            0,
        )[i] == blit(orig, wi, gv, gxi, gy)[i] by {
            lemma_pixel_coords(wi, hi, i);
        }
    }
}

/// Rasterises `text` in black on a white canvas of `width` by `height`
/// pixels. Without a face the canvas stays blank.
pub fn render_text_bitmap(width: u32, height: u32, text: &str, face: Option<&FontFace>) -> (pixels:
    Vec<u8>)
    requires
        width * height * 4 <= usize::MAX,
    ensures
        pixels@.len() == width * height * 4,
        pixels@ == rendered_text(width as int, height as int, text@, face_behind(face)),
{
    let ghost wi = width as int;
    let ghost hi = height as int;
    assert(0 <= wi * hi <= wi * hi * 4) by (nonlinear_arith)
        requires
            0 <= wi,
            0 <= hi,
    ;
    let size: usize = (width as usize) * (height as usize) * 4;
    let mut pixels: Vec<u8> = vec![255u8; size];
    assert(pixels@ =~= blank_canvas(wi, hi));
    let f = match face {
        Some(f) => f,
        None => {
            return pixels;
        },
    };
    let chars = chars_of(text);
    let w: i64 = width as i64;
    let h: i64 = height as i64;
    let mut x: i64 = MARGIN;
    let mut y: i64 = MARGIN + LINE_HEIGHT;
    let mut i: usize = 0;
    while i < chars.len()
        invariant
            chars@ == text@,
            w == width,
            h == height,
            i <= chars@.len(),
            MARGIN <= x <= w + 0x1_0000_0000,
            0 <= y <= h + MARGIN + LINE_HEIGHT,
            pixels@.len() == width * height * 4,
            draw_from(pixels@, w as int, h as int, text@, *f, i as int, x as int, y as int)
                == rendered_text(w as int, h as int, text@, face_behind(face)),
        decreases chars@.len() - i,
    {
        let ch = chars[i];
        if ch == '\n' {
            x = MARGIN;
            y = y + LINE_HEIGHT;
            if y >= h - MARGIN {
                return pixels;
            }
        } else {
            let g = f.glyph(ch);
            let adv: i64 = g.advance as i64;
            if x + adv >= w - MARGIN {
                x = MARGIN;
                y = y + LINE_HEIGHT;
                if y >= h - MARGIN {
                    return pixels;
                }
            }
            blit_glyph(&mut pixels, width, height, g, x + g.xmin as i64, y);
            x = x + if adv > 1 { adv } else { 1 };
        }
        i += 1;
    }
    pixels
}

} // verus!
