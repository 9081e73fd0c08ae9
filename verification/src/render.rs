//! The first render pass on plain values: which colour each pixel of the
//! frame has, at the buffer's own resolution.

use crate::buffer::{Buffer, Cell, Font};
use crate::color::Color;
use vstd::prelude::*;

verus! {

/// The concatenation of `part(0)`, ..., `part(n - 1)`.
pub open spec fn concat_all(n: int, part: spec_fn(int) -> Seq<u8>) -> Seq<u8>
    decreases n,
{
    if n <= 0 {
        Seq::empty()
    } else {
        concat_all(n - 1, part) + part(n - 1)
    }
}

/// The largest width among the first `n` fonts, 0 where there is none.
pub open spec fn max_font_width(fonts: Seq<Font>, n: int) -> int
    decreases n,
{
    if n <= 0 {
        0
    } else if fonts[n - 1].width > max_font_width(fonts, n - 1) {
        fonts[n - 1].width as int
    } else {
        max_font_width(fonts, n - 1)
    }
}

/// The largest height among the first `n` fonts, 0 where there is none.
pub open spec fn max_font_height(fonts: Seq<Font>, n: int) -> int
    decreases n,
{
    if n <= 0 {
        0
    } else if fonts[n - 1].height > max_font_height(fonts, n - 1) {
        fonts[n - 1].height as int
    } else {
        max_font_height(fonts, n - 1)
    }
}

/// The largest extent is never negative.
pub proof fn lemma_max_font_nonnegative(fonts: Seq<Font>, n: int)
    ensures
        0 <= max_font_width(fonts, n),
        0 <= max_font_height(fonts, n),
    decreases n,
{
    if n > 0 {
        lemma_max_font_nonnegative(fonts, n - 1);
    }
}

/// The palette index that a pixel shows. A pixel of the glyph shows the
/// foreground, the others the background. While the blink phase is off, the
/// glyph of a blinking cell is hidden, unless the buffer is in iCE mode,
/// where nothing blinks.
pub open spec fn shade_index(cell: Cell, mask: bool, use_ice: bool, blink_on: bool) -> u8 {
    if mask {
        if cell.flags.blink && !blink_on {
            if use_ice {
                cell.fg_ix
            } else {
                cell.bg_ix
            }
        } else {
            cell.fg_ix
        }
    } else {
        cell.bg_ix
    }
}

/// Whether the glyph of the cell is hidden in this blink phase.
pub open spec fn glyph_hidden(cell: Cell, use_ice: bool, blink_on: bool) -> bool {
    cell.flags.blink && !blink_on && !use_ice
}

pub fn shade(cell: Cell, mask: bool, use_ice: bool, blink_on: bool) -> (index: u8)
    ensures
        index == shade_index(cell, mask, use_ice, blink_on),
        !glyph_hidden(cell, use_ice, blink_on) ==> index == if mask {
            cell.fg_ix
        } else {
            cell.bg_ix
        },
{
    if mask && !(cell.flags.blink && !blink_on && !use_ice) {
        cell.fg_ix
    } else {
        cell.bg_ix
    }
}

impl Buffer {
    /// Width of a cell in pixels: that of the widest font.
    pub open spec fn cell_width(&self) -> int {
        max_font_width(self.fonts@, self.fonts@.len() as int)
    }

    /// Height of a cell in pixels: that of the tallest font.
    pub open spec fn cell_height(&self) -> int {
        max_font_height(self.fonts@, self.fonts@.len() as int)
    }

    /// The size of a cell in pixels. Where the fonts differ the largest
    /// extent counts in each direction.
    pub fn get_font_dimensions(&self) -> (dims: (usize, usize))
        ensures
            dims.0 == self.cell_width(),
            dims.1 == self.cell_height(),
    {
        let mut w: usize = 0;
        let mut h: usize = 0;
        let mut f: usize = 0;
        while f < self.fonts.len()
            invariant
                f <= self.fonts@.len(),
                w == max_font_width(self.fonts@, f as int),
                h == max_font_height(self.fonts@, f as int),
            decreases self.fonts@.len() - f,
        {
            if self.fonts[f].width > w {
                w = self.fonts[f].width;
            }
            if self.fonts[f].height > h {
                h = self.fonts[f].height;
            }
            f += 1;
        }
        (w, h)
    }

    /// The frame in pixels fits the machine's range.
    pub open spec fn frame_fits(&self) -> bool {
        &&& self.cell_width() * self.width <= i32::MAX
        &&& self.cell_height() * self.height <= i32::MAX
    }

    /// Whether the frame in pixels fits the machine's range.
    pub fn fits_frame(&self) -> (fits: bool)
        ensures
            fits == self.frame_fits(),
    {
        let (cw, ch) = self.get_font_dimensions();
        assert(cw * self.width <= 0xFFFF_FFFF_FFFF_FFFF * 0xFFFF_FFFF_FFFF_FFFF && ch * self.height
            <= 0xFFFF_FFFF_FFFF_FFFF * 0xFFFF_FFFF_FFFF_FFFF) by (nonlinear_arith)
            requires
                0 <= cw <= 0xFFFF_FFFF_FFFF_FFFF,
                0 <= ch <= 0xFFFF_FFFF_FFFF_FFFF,
                0 <= self.width <= 0xFFFF_FFFF_FFFF_FFFF,
                0 <= self.height <= 0xFFFF_FFFF_FFFF_FFFF,
        ;
        let w = cw as u128 * self.width as u128;
        let h = ch as u128 * self.height as u128;
        w <= 0x7FFF_FFFF && h <= 0x7FFF_FFFF
    }

    /// The size in pixels of the frame that the first pass draws: one cell
    /// for each column and each visible line.
    pub fn render_buffer_size(&self) -> (size: (usize, usize))
        requires
            self.frame_fits(),
        ensures
            size.0 == self.cell_width() * self.width,
            size.1 == self.cell_height() * self.height,
    {
        let (cw, ch) = self.get_font_dimensions();
        (cw * self.width, ch * self.height)
    }

    /// The cell under pixel (`px`, `py`) of the frame whose first line is
    /// `first_line`.
    pub open spec fn pixel_cell(&self, px: int, py: int, first_line: int) -> Cell {
        self.visible_cell(px / self.cell_width(), first_line + py / self.cell_height())
    }

    /// The font texel under pixel (`px`, `py`) of the frame whose first
    /// line is `first_line`.
    pub open spec fn pixel_mask(&self, px: int, py: int, first_line: int) -> bool {
        let cell = self.pixel_cell(px, py, first_line);
        self.fonts@[cell.font_index as int].texel(
            cell.glyph,
            px % self.cell_width(),
            py % self.cell_height(),
        )
    }

    /// The colour of pixel (`px`, `py`) of the frame whose first line is
    /// `first_line`.
    pub open spec fn pixel(&self, px: int, py: int, first_line: int, blink_on: bool) -> Color {
        let cell = self.pixel_cell(px, py, first_line);
        let mask = self.pixel_mask(px, py, first_line);
        self.palette.colors@[shade_index(cell, mask, self.flags.use_ice, blink_on) as int]
    }

    /// Computes one pixel of the frame. Unless the glyph of its cell is
    /// hidden by the blink phase, the pixel has the cell's foreground colour
    /// where the font texel is set and its background colour elsewhere.
    pub fn pixel_color(&self, px: usize, py: usize, first_line: usize, blink_on: bool) -> (color:
        Color)
        requires
            self.wf(),
            px < self.cell_width() * self.width,
            py < self.cell_height() * self.height,
            first_line + self.height <= self.real_height,
        ensures
            color == self.pixel(px as int, py as int, first_line as int, blink_on),
            ({
                let cell = self.pixel_cell(px as int, py as int, first_line as int);
                let mask = self.pixel_mask(px as int, py as int, first_line as int);
                !glyph_hidden(cell, self.flags.use_ice, blink_on) ==> color
                    == self.palette.colors@[(if mask {
                    cell.fg_ix
                } else {
                    cell.bg_ix
                }) as int]
            }),
    {
        let (cw, ch) = self.get_font_dimensions();
        proof {
            lemma_pixel_in_cell(px as int, cw as int, self.width as int);
            lemma_pixel_in_cell(py as int, ch as int, self.height as int);
        }
        let cx = px / cw;
        let cy = first_line + py / ch;
        let cell = self.cell_at(cx, cy);
        let mask = self.fonts[cell.font_index as usize].mask(cell.glyph, px % cw, py % ch);
        let index = shade(cell, mask, self.flags.use_ice, blink_on);
        self.palette.colors[index as usize]
    }
}

/// The four bytes of an opaque pixel.
pub open spec fn opaque_rgba(color: Color) -> Seq<u8> {
    seq![color.r, color.g, color.b, 255u8]
}

/// The first `n` pixels of row `py` of the frame.
pub open spec fn frame_row(buf: Buffer, py: int, first_line: int, blink_on: bool, n: int) -> Seq<
    u8,
>
    decreases n,
{
    if n <= 0 {
        Seq::empty()
    } else {
        frame_row(buf, py, first_line, blink_on, n - 1) + opaque_rgba(
            buf.pixel(n - 1, py, first_line, blink_on),
        )
    }
}

/// The first `n` rows of the frame.
pub open spec fn frame_rows(buf: Buffer, first_line: int, blink_on: bool, n: int) -> Seq<u8>
    decreases n,
{
    if n <= 0 {
        Seq::empty()
    } else {
        frame_rows(buf, first_line, blink_on, n - 1) + frame_row(
            buf,
            n - 1,
            first_line,
            blink_on,
            buf.cell_width() * buf.width,
        )
    }
}

/// The frame of the first pass as RGBA bytes, row by row. A buffer without
/// columns or without visible lines has no pixels.
pub open spec fn frame(buf: Buffer, first_line: int, blink_on: bool) -> Seq<u8> {
    if buf.width == 0 || buf.height == 0 {
        Seq::empty()
    } else {
        frame_rows(buf, first_line, blink_on, buf.cell_height() * buf.height)
    }
}

impl Buffer {
    /// Draws the visible lines from `first_line` on, pixel by pixel: the
    /// reference for what the first pass puts into the frame.
    pub fn render_frame(&self, first_line: usize, blink_on: bool) -> (pixels: Vec<u8>)
        requires
            self.wf(),
            self.frame_fits(),
            first_line + self.height <= self.real_height,
        ensures
            pixels@ == frame(*self, first_line as int, blink_on),
            self.width == 0 || self.height == 0 ==> pixels@.len() == 0,
    {
        let mut pixels: Vec<u8> = Vec::new();
        if self.width == 0 || self.height == 0 {
            return pixels;
        }
        let (w, h) = self.render_buffer_size();
        let mut py: usize = 0;
        while py < h
            invariant
                self.wf(),
                first_line + self.height <= self.real_height,
                w == self.cell_width() * self.width,
                h == self.cell_height() * self.height,
                py <= h,
                pixels@ == frame_rows(*self, first_line as int, blink_on, py as int),
            decreases h - py,
        {
            let ghost start = pixels@;
            let mut px: usize = 0;
            assert(start + frame_row(*self, py as int, first_line as int, blink_on, 0) =~= start);
            while px < w
                invariant
                    self.wf(),
                    first_line + self.height <= self.real_height,
                    w == self.cell_width() * self.width,
                    h == self.cell_height() * self.height,
                    py < h,
                    px <= w,
                    pixels@ == start + frame_row(
                        *self,
                        py as int,
                        first_line as int,
                        blink_on,
                        px as int,
                    ),
                decreases w - px,
            {
                let color = self.pixel_color(px, py, first_line, blink_on);
                pixels.push(color.r);
                pixels.push(color.g);
                pixels.push(color.b);
                pixels.push(255);
                assert(pixels@ =~= start + frame_row(
                    *self,
                    py as int,
                    first_line as int,
                    blink_on,
                    px + 1,
                ));
                px += 1;
            }
            py += 1;
        }
        pixels
    }
}

/// A pixel within `count` cells of `size` pixels lies in one of the cells.
pub proof fn lemma_pixel_in_cell(p: int, size: int, count: int)
    requires
        0 <= p < size * count,
        0 <= count,
        0 <= size,
    ensures
        size > 0,
        0 <= p / size < count,
        0 <= p % size < size,
{
    assert(size > 0) by (nonlinear_arith)
        requires
            0 <= p < size * count,
            0 <= count,
            0 <= size,
    ;
    vstd::arithmetic::div_mod::lemma_fundamental_div_mod(p, size);
    vstd::arithmetic::div_mod::lemma_mod_bound(p, size);
    let q = p / size;
    let r = p % size;
    assert(0 <= q < count) by (nonlinear_arith)
        requires
            p == size * q + r,
            0 <= r < size,
            0 <= p < size * count,
    ;
}


/// The frame that the passes draw into, as far as its size goes.
pub struct OutputRenderer {
    /// Width and height of the frame in pixels.
    pub render_buffer_size: (usize, usize),
}

impl OutputRenderer {
    /// A frame of the size that `buf` needs.
    pub fn new(buf: &Buffer) -> (renderer: Self)
        requires
            buf.frame_fits(),
        ensures
            renderer.render_buffer_size.0 == buf.cell_width() * buf.width,
            renderer.render_buffer_size.1 == buf.cell_height() * buf.height,
    {
        Self { render_buffer_size: buf.render_buffer_size() }
    }

    /// Takes the size that `buf` needs. Returns whether the frame has to
    /// be allocated anew: exactly when the size has changed.
    pub fn update_render_buffer(&mut self, buf: &Buffer) -> (reallocate: bool)
        requires
            buf.frame_fits(),
        ensures
            final(self).render_buffer_size.0 == buf.cell_width() * buf.width,
            final(self).render_buffer_size.1 == buf.cell_height() * buf.height,
            reallocate == (final(self).render_buffer_size != old(self).render_buffer_size),
    {
        let size = buf.render_buffer_size();
        if size.0 == self.render_buffer_size.0 && size.1 == self.render_buffer_size.1 {
            return false;
        }
        self.render_buffer_size = size;
        true
    }
}

} // verus!
