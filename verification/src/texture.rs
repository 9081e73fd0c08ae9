//! The bytes of the three lookup textures that the renderer samples: the
//! cells of a layer, the palette and the glyph masks of the fonts.

use crate::buffer::{Buffer, Cell, CellFlags, Font, Palette};
use crate::color::Color;
use crate::render::{max_font_height, max_font_width};
use vstd::prelude::*;

verus! {

/// The byte that holds the background index in its low four bits and the
/// attribute bits above them.
pub open spec fn packed_attributes(cell: Cell) -> u8 {
    (cell.bg_ix % 16 + (if cell.flags.blink {
        16int
    } else {
        0int
    }) + (if cell.flags.underline {
        32int
    } else {
        0int
    }) + (if cell.flags.double_height_top {
        64int
    } else {
        0int
    }) + (if cell.flags.double_height_bottom {
        128int
    } else {
        0int
    })) as u8
}

/// The four bytes of a cell: glyph, font, foreground, background with
/// attributes. A transparent cell is four zero bytes.
pub open spec fn packed_cell(cell: Option<Cell>) -> Seq<u8> {
    match cell {
        Some(cell) => seq![cell.glyph, cell.font_index, cell.fg_ix, packed_attributes(cell)],
        None => seq![0u8, 0u8, 0u8, 0u8],
    }
}

/// The cell that four texture bytes stand for.
pub open spec fn unpacked_cell(bytes: Seq<u8>) -> Cell {
    Cell {
        glyph: bytes[0],
        font_index: bytes[1],
        fg_ix: bytes[2],
        bg_ix: bytes[3] % 16,
        flags: CellFlags {
            blink: (bytes[3] / 16) % 2 == 1,
            underline: (bytes[3] / 32) % 2 == 1,
            double_height_top: (bytes[3] / 64) % 2 == 1,
            double_height_bottom: (bytes[3] / 128) % 2 == 1,
        },
    }
}

pub fn pack_attributes(cell: &Cell) -> (byte: u8)
    ensures
        byte == packed_attributes(*cell),
{
    let mut byte: u8 = cell.bg_ix % 16;
    if cell.flags.blink {
        byte += 16;
    }
    if cell.flags.underline {
        byte += 32;
    }
    if cell.flags.double_height_top {
        byte += 64;
    }
    if cell.flags.double_height_bottom {
        byte += 128;
    }
    byte
}

/// Reads a cell back from its four texture bytes.
pub fn unpack_cell(bytes: &[u8; 4]) -> (cell: Cell)
    ensures
        cell == unpacked_cell(bytes@),
{
    let attributes = bytes[3];
    Cell {
        glyph: bytes[0],
        font_index: bytes[1],
        fg_ix: bytes[2],
        bg_ix: attributes % 16,
        flags: CellFlags {
            blink: (attributes / 16) % 2 == 1,
            underline: (attributes / 32) % 2 == 1,
            double_height_top: (attributes / 64) % 2 == 1,
            double_height_bottom: (attributes / 128) % 2 == 1,
        },
    }
}

/// Packing loses nothing of a cell whose background index is below 16.
pub proof fn lemma_pack_round_trip(cell: Cell)
    requires
        cell.bg_ix < 16,
    ensures
        unpacked_cell(packed_cell(Some(cell))) == cell,
{
}

/// The cell texture of a layer: four bytes for each cell, line by line.
pub open spec fn cell_texture(cells: Seq<Option<Cell>>) -> Seq<u8> {
    Seq::new(4 * cells.len(), |b: int| packed_cell(cells[b / 4])[b % 4])
}

/// The palette texture: red, green and blue of each colour in order.
pub open spec fn palette_bytes(colors: Seq<Color>) -> Seq<u8> {
    Seq::new(
        3 * colors.len(),
        |b: int|
            if b % 3 == 0 {
                colors[b / 3].r
            } else if b % 3 == 1 {
                colors[b / 3].g
            } else {
                colors[b / 3].b
            },
    )
}

/// The byte of one texel of the font texture: 255 where the glyph is set.
pub open spec fn texel_byte(font: Font, glyph: u8, x: int, y: int) -> u8 {
    if font.texel(glyph, x, y) {
        255u8
    } else {
        0u8
    }
}

/// Row `y` of a glyph in a slot `width` texels wide.
pub open spec fn glyph_row_texels(font: Font, glyph: u8, y: int, width: int) -> Seq<u8> {
    Seq::new(width as nat, |x: int| texel_byte(font, glyph, x, y))
}

/// The first `n` rows of a glyph, one after the other.
pub open spec fn glyph_texels(font: Font, glyph: u8, width: int, n: int) -> Seq<u8>
    decreases n,
{
    if n <= 0 {
        Seq::empty()
    } else {
        glyph_texels(font, glyph, width, n - 1) + glyph_row_texels(font, glyph, n - 1, width)
    }
}

/// The first `n` glyphs of a font, each in a slot of `width` by `height`.
pub open spec fn font_texels(font: Font, width: int, height: int, n: int) -> Seq<u8>
    decreases n,
{
    if n <= 0 {
        Seq::empty()
    } else {
        font_texels(font, width, height, n - 1) + glyph_texels(
            font,
            (n - 1) as u8,
            width,
            height,
        )
    }
}

/// The layers of the first `n` fonts.
pub open spec fn font_layers(fonts: Seq<Font>, width: int, height: int, n: int) -> Seq<u8>
    decreases n,
{
    if n <= 0 {
        Seq::empty()
    } else {
        font_layers(fonts, width, height, n - 1) + font_texels(fonts[n - 1], width, height, 256)
    }
}

/// The font texture: one layer for each font, each layer 256 glyph slots of
/// the largest font's extent, each slot row by row.
pub open spec fn font_texture(fonts: Seq<Font>) -> Seq<u8> {
    font_layers(
        fonts,
        max_font_width(fonts, fonts.len() as int),
        max_font_height(fonts, fonts.len() as int),
        fonts.len() as int,
    )
}

fn push_glyph_row(out: &mut Vec<u8>, font: &Font, glyph: u8, y: usize, width: usize)
    requires
        font.wf(),
    ensures
        final(out)@ == old(out)@ + glyph_row_texels(*font, glyph, y as int, width as int),
{
    let ghost start = out@;
    let mut x: usize = 0;
    while x < width
        invariant
            font.wf(),
            x <= width,
            out@ == start + glyph_row_texels(*font, glyph, y as int, x as int),
        decreases width - x,
    {
        let byte: u8 = if font.mask(glyph, x, y) {
            255
        } else {
            0
        };
        out.push(byte);
        assert(out@ =~= start + glyph_row_texels(*font, glyph, y as int, x + 1));
        x += 1;
    }
    assert(start + glyph_row_texels(*font, glyph, y as int, 0) =~= start);
}

fn push_glyph(out: &mut Vec<u8>, font: &Font, glyph: u8, width: usize, height: usize)
    requires
        font.wf(),
    ensures
        final(out)@ == old(out)@ + glyph_texels(*font, glyph, width as int, height as int),
{
    let ghost start = out@;
    let mut y: usize = 0;
    assert(start + glyph_texels(*font, glyph, width as int, 0) =~= start);
    while y < height
        invariant
            font.wf(),
            y <= height,
            out@ == start + glyph_texels(*font, glyph, width as int, y as int),
        decreases height - y,
    {
        push_glyph_row(out, font, glyph, y, width);
        assert(out@ =~= start + glyph_texels(*font, glyph, width as int, y + 1));
        y += 1;
    }
}

fn push_font(out: &mut Vec<u8>, font: &Font, width: usize, height: usize)
    requires
        font.wf(),
    ensures
        final(out)@ == old(out)@ + font_texels(*font, width as int, height as int, 256),
{
    let ghost start = out@;
    let mut glyph: usize = 0;
    assert(start + font_texels(*font, width as int, height as int, 0) =~= start);
    while glyph < 256
        invariant
            font.wf(),
            glyph <= 256,
            out@ == start + font_texels(*font, width as int, height as int, glyph as int),
        decreases 256 - glyph,
    {
        push_glyph(out, font, glyph as u8, width, height);
        assert(out@ =~= start + font_texels(*font, width as int, height as int, glyph + 1));
        glyph += 1;
    }
}

impl Palette {
    /// The bytes of the palette texture, one texel of three bytes for each
    /// colour.
    pub fn update_palette_texture(&self) -> (bytes: Vec<u8>)
        ensures
            bytes@ == palette_bytes(self.colors@),
    {
        let mut bytes: Vec<u8> = Vec::new();
        let mut i: usize = 0;
        while i < self.colors.len()
            invariant
                i <= self.colors@.len(),
                bytes@ == palette_bytes(self.colors@.take(i as int)),
            decreases self.colors@.len() - i,
        {
            let color = self.colors[i];
            bytes.push(color.r);
            bytes.push(color.g);
            bytes.push(color.b);
            assert(bytes@ =~= palette_bytes(self.colors@.take(i + 1)));
            i += 1;
        }
        assert(self.colors@.take(i as int) =~= self.colors@);
        bytes
    }
}

impl Buffer {
    /// The bytes of the cell texture of layer `layer_ix`: a texture of
    /// `4 * width` by `real_height` bytes, four bytes for each cell.
    pub fn update_buffer_texture(&self, layer_ix: usize) -> (bytes: Vec<u8>)
        requires
            layer_ix < self.layers@.len(),
        ensures
            bytes@ == cell_texture(self.layers@[layer_ix as int].cells@),
    {
        let cells = &self.layers[layer_ix].cells;
        let mut bytes: Vec<u8> = Vec::new();
        let mut i: usize = 0;
        while i < cells.len()
            invariant
                i <= cells@.len(),
                bytes@ == cell_texture(cells@.take(i as int)),
            decreases cells@.len() - i,
        {
            match &cells[i] {
                Some(cell) => {
                    bytes.push(cell.glyph);
                    bytes.push(cell.font_index);
                    bytes.push(cell.fg_ix);
                    bytes.push(pack_attributes(cell));
                },
                None => {
                    bytes.push(0);
                    bytes.push(0);
                    bytes.push(0);
                    bytes.push(0);
                },
            }
            assert(bytes@ =~= cell_texture(cells@.take(i + 1)));
            i += 1;
        }
        assert(cells@.take(i as int) =~= cells@);
        bytes
    }

    /// The bytes of the font texture: for each font a layer of 256 glyph
    /// slots of the largest font's extent.
    pub fn update_font_texture(&self) -> (bytes: Vec<u8>)
        requires
            forall|f: int| 0 <= f < self.fonts@.len() ==> (#[trigger] self.fonts@[f]).wf(),
        ensures
            bytes@ == font_texture(self.fonts@),
    {
        let (width, height) = self.get_font_dimensions();
        let mut bytes: Vec<u8> = Vec::new();
        let mut f: usize = 0;
        while f < self.fonts.len()
            invariant
                f <= self.fonts@.len(),
                forall|k: int| 0 <= k < self.fonts@.len() ==> (#[trigger] self.fonts@[k]).wf(),
                bytes@ == font_layers(self.fonts@, width as int, height as int, f as int),
            decreases self.fonts@.len() - f,
        {
            push_font(&mut bytes, &self.fonts[f], width, height);
            f += 1;
        }
        bytes
    }
}


/// The three lookup textures of a buffer with the numbers that describe
/// their layout: what the first pass samples.
pub struct Textures {
    /// Four bytes for each cell, line by line.
    pub cells: Vec<u8>,
    /// Three bytes for each colour.
    pub palette: Vec<u8>,
    /// One layer for each font.
    pub fonts: Vec<u8>,
    /// Number of cells in a line.
    pub columns: usize,
    /// Number of lines.
    pub lines: usize,
    /// Width of a glyph slot in texels.
    pub cell_width: usize,
    /// Height of a glyph slot in texels.
    pub cell_height: usize,
    /// Number of layers of the font texture.
    pub font_count: usize,
}

/// The index of a texel in the font texture.
pub open spec fn texel_index(font: int, glyph: int, x: int, y: int, width: int, height: int) -> int {
    ((font * 256 + glyph) * height + y) * width + x
}

impl Textures {
    /// Number of colours in the palette texture.
    pub open spec fn colors(&self) -> int {
        self.palette@.len() as int / 3
    }

    /// The cell that the cell texture holds at index `c`.
    pub open spec fn cell(&self, c: int) -> Cell {
        unpacked_cell(self.cells@.subrange(4 * c, 4 * c + 4))
    }

    /// The textures have the lengths that their layout asks for, and every
    /// cell names a font layer and colours that exist.
    pub open spec fn wf(&self) -> bool {
        &&& self.cells@.len() == 4 * (self.columns * self.lines)
        &&& self.palette@.len() % 3 == 0
        &&& self.fonts@.len() == self.font_count * (256 * (self.cell_height * self.cell_width))
        &&& forall|c: int|
            0 <= c < self.columns * self.lines ==> {
                &&& (#[trigger] self.cell(c)).font_index < self.font_count
                &&& self.cell(c).fg_ix < self.colors()
                &&& self.cell(c).bg_ix < self.colors()
            }
    }

    /// The colour that the first pass gives pixel (`px`, `py`) of the frame
    /// whose first line is `first_line`: it reads the cell under the pixel
    /// from the cell texture, the texel of its glyph from the font texture
    /// and the colour from the palette texture.
    pub open spec fn sampled(
        &self,
        px: int,
        py: int,
        first_line: int,
        use_ice: bool,
        blink_on: bool,
    ) -> Color {
        let cw = self.cell_width as int;
        let ch = self.cell_height as int;
        let cell = self.cell((first_line + py / ch) * self.columns + px / cw);
        let texel = self.fonts@[texel_index(
            cell.font_index as int,
            cell.glyph as int,
            px % cw,
            py % ch,
            cw,
            ch,
        )];
        let index = crate::render::shade_index(cell, texel == 255u8, use_ice, blink_on) as int;
        Color {
            r: self.palette@[3 * index],
            g: self.palette@[3 * index + 1],
            b: self.palette@[3 * index + 2],
        }
    }

    /// Samples one pixel as the first pass does: see [`Textures::sampled`].
    pub fn sample(&self, px: usize, py: usize, first_line: usize, use_ice: bool, blink_on: bool) -> (color:
        Color)
        requires
            self.wf(),
            px < self.cell_width * self.columns,
            0 < self.cell_height,
            first_line + py / self.cell_height < self.lines,
        ensures
            color == self.sampled(px as int, py as int, first_line as int, use_ice, blink_on),
    {
        let cw = self.cell_width;
        let ch = self.cell_height;
        proof {
            crate::render::lemma_pixel_in_cell(px as int, cw as int, self.columns as int);
        }
        let cx = px / cw;
        let line = first_line + py / ch;
        let total = self.cells.len();
        let font_bytes = self.fonts.len();
        proof {
            crate::buffer::lemma_cell_index(
                cx as int,
                line as int,
                self.columns as int,
                self.lines as int,
            );
            assert(0 <= line * self.columns) by (nonlinear_arith)
                requires
                    0 <= line,
                    0 <= self.columns,
            ;
        }
        let c = line * self.columns + cx;
        let bytes: [u8; 4] = [
            self.cells[4 * c],
            self.cells[4 * c + 1],
            self.cells[4 * c + 2],
            self.cells[4 * c + 3],
        ];
        assert(bytes@ =~= self.cells@.subrange(4 * c, 4 * c + 4));
        let cell = unpack_cell(&bytes);
        assert(cell == self.cell(c as int));
        let sx = px % cw;
        let sy = py % ch;
        proof {
            lemma_texel_index_bound(
                cell.font_index as int,
                cell.glyph as int,
                sx as int,
                sy as int,
                cw as int,
                ch as int,
                self.font_count as int,
            );
        }
        let slot = cell.font_index as usize * 256 + cell.glyph as usize;
        assert(0 <= slot * ch && slot * ch + sy <= (slot * ch + sy) * cw + sx) by (nonlinear_arith)
            requires
                0 <= slot,
                0 <= sy,
                0 <= sx,
                0 < ch,
                0 < cw,
        ;
        let texel = self.fonts[(slot * ch + sy) * cw + sx];
        let index = crate::render::shade(cell, texel == 255, use_ice, blink_on) as usize;
        Color {
            r: self.palette[3 * index],
            g: self.palette[3 * index + 1],
            b: self.palette[3 * index + 2],
        }
    }
}

/// A texel of a font layer that exists lies within the font texture.
pub proof fn lemma_texel_index_bound(
    font: int,
    glyph: int,
    x: int,
    y: int,
    width: int,
    height: int,
    count: int,
)
    requires
        0 <= font < count,
        0 <= glyph < 256,
        0 <= x < width,
        0 <= y < height,
    ensures
        0 <= texel_index(font, glyph, x, y, width, height) < count * (256 * (height * width)),
        texel_index(font, glyph, x, y, width, height) == font * (256 * (height * width)) + ((glyph
            * height + y) * width + x),
        0 <= (glyph * height + y) * width + x < 256 * (height * width),
        0 <= y * width + x < height * width,
{
    crate::buffer::lemma_cell_index(x, y, width, height);
    assert(width * height == height * width) by (nonlinear_arith);
    let in_glyph = y * width + x;
    let glyph_size = height * width;
    assert((glyph * height + y) * width + x == glyph * glyph_size + in_glyph) by (nonlinear_arith)
        requires
            glyph_size == height * width,
            in_glyph == y * width + x,
    ;
    assert(0 <= glyph * glyph_size + in_glyph < 256 * glyph_size) by (nonlinear_arith)
        requires
            0 <= glyph < 256,
            0 <= in_glyph < glyph_size,
    ;
    let in_font = glyph * glyph_size + in_glyph;
    let font_size = 256 * glyph_size;
    assert(texel_index(font, glyph, x, y, width, height) == font * font_size + in_font)
        by (nonlinear_arith)
        requires
            texel_index(font, glyph, x, y, width, height) == ((font * 256 + glyph) * height + y)
                * width + x,
            font_size == 256 * (height * width),
            in_font == glyph * (height * width) + (y * width + x),
    ;
    assert(0 <= font * font_size + in_font < count * font_size) by (nonlinear_arith)
        requires
            0 <= font < count,
            0 <= in_font < font_size,
    ;
}

/// The rows of a glyph lie one after the other in its slot.
pub proof fn lemma_glyph_texels(font: Font, glyph: u8, width: int, n: int, x: int, y: int)
    requires
        0 <= x < width,
        0 <= y < n,
    ensures
        glyph_texels(font, glyph, width, n).len() == n * width,
        glyph_texels(font, glyph, width, n)[y * width + x] == texel_byte(font, glyph, x, y),
    decreases n,
{
    lemma_glyph_texels_len(font, glyph, width, n - 1);
    assert((n - 1) * width + width == n * width) by (nonlinear_arith);
    if y < n - 1 {
        lemma_glyph_texels(font, glyph, width, n - 1, x, y);
        assert(y * width + x < (n - 1) * width) by (nonlinear_arith)
            requires
                0 <= x < width,
                0 <= y < n - 1,
        ;
    }
}

proof fn lemma_glyph_texels_len(font: Font, glyph: u8, width: int, n: int)
    requires
        0 <= width,
        0 <= n,
    ensures
        glyph_texels(font, glyph, width, n).len() == n * width,
    decreases n,
{
    if n > 0 {
        lemma_glyph_texels_len(font, glyph, width, n - 1);
        assert((n - 1) * width + width == n * width) by (nonlinear_arith);
    } else {
        assert(n * width == 0) by (nonlinear_arith)
            requires
                n == 0,
        ;
    }
}

proof fn lemma_font_texels_len(font: Font, width: int, height: int, n: int)
    requires
        0 <= width,
        0 <= height,
        0 <= n,
    ensures
        font_texels(font, width, height, n).len() == n * (height * width),
    decreases n,
{
    let size = height * width;
    if n > 0 {
        lemma_font_texels_len(font, width, height, n - 1);
        lemma_glyph_texels_len(font, #[verifier::truncate] ((n - 1) as u8), width, height);
        assert((n - 1) * size + size == n * size) by (nonlinear_arith);
    } else {
        assert(n * size == 0) by (nonlinear_arith)
            requires
                n == 0,
        ;
    }
}

/// The slots of the glyphs lie one after the other in a font's layer.
pub proof fn lemma_font_texels(font: Font, width: int, height: int, n: int, glyph: u8, x: int, y: int)
    requires
        0 <= x < width,
        0 <= y < height,
        glyph < n <= 256,
    ensures
        font_texels(font, width, height, n).len() == n * (height * width),
        font_texels(font, width, height, n)[(glyph * height + y) * width + x] == texel_byte(
            font,
            glyph,
            x,
            y,
        ),
    decreases n,
{
    lemma_font_texels_len(font, width, height, n);
    lemma_font_texels_len(font, width, height, n - 1);
    crate::buffer::lemma_cell_index(x, y, width, height);
    assert(width * height == height * width) by (nonlinear_arith);
    let size = height * width;
    let inner = y * width + x;
    assert((glyph * height + y) * width + x == glyph * size + inner) by (nonlinear_arith)
        requires
            size == height * width,
            inner == y * width + x,
    ;
    if glyph < n - 1 {
        lemma_font_texels(font, width, height, n - 1, glyph, x, y);
        assert(glyph * size + inner < (n - 1) * size) by (nonlinear_arith)
            requires
                0 <= glyph < n - 1,
                0 <= inner < size,
        ;
    } else {
        lemma_glyph_texels(font, glyph, width, height, x, y);
        assert(((n - 1) as u8) == glyph);
    }
}

proof fn lemma_font_layers_len(fonts: Seq<Font>, width: int, height: int, n: int)
    requires
        0 <= width,
        0 <= height,
        0 <= n <= fonts.len(),
    ensures
        font_layers(fonts, width, height, n).len() == n * (256 * (height * width)),
    decreases n,
{
    let size = 256 * (height * width);
    if n > 0 {
        lemma_font_layers_len(fonts, width, height, n - 1);
        lemma_font_texels_len(fonts[n - 1], width, height, 256);
        assert((n - 1) * size + size == n * size) by (nonlinear_arith);
    } else {
        assert(n * size == 0) by (nonlinear_arith)
            requires
                n == 0,
        ;
    }
}

/// The layers of the fonts lie one after the other in the font texture.
pub proof fn lemma_font_layers(
    fonts: Seq<Font>,
    width: int,
    height: int,
    n: int,
    f: int,
    glyph: u8,
    x: int,
    y: int,
)
    requires
        0 <= x < width,
        0 <= y < height,
        0 <= f < n <= fonts.len(),
    ensures
        font_layers(fonts, width, height, n).len() == n * (256 * (height * width)),
        font_layers(fonts, width, height, n)[texel_index(f, glyph as int, x, y, width, height)]
            == texel_byte(fonts[f], glyph, x, y),
    decreases n,
{
    lemma_font_layers_len(fonts, width, height, n);
    lemma_font_layers_len(fonts, width, height, n - 1);
    lemma_texel_index_bound(f, glyph as int, x, y, width, height, n);
    if f < n - 1 {
        lemma_font_layers(fonts, width, height, n - 1, f, glyph, x, y);
        lemma_texel_index_bound(f, glyph as int, x, y, width, height, n - 1);
    } else {
        lemma_font_texels(fonts[f], width, height, 256, glyph, x, y);
    }
}


/// Every cell of the base layer has a background index below 16, which is
/// what the cell texture has room for beside the attribute bits.
pub open spec fn low_backgrounds(buf: Buffer) -> bool {
    forall|i: int|
        0 <= i < buf.layers@[0].cells@.len() ==> (#[trigger] buf.layers@[0].cells@[i] matches Some(
            cell,
        ) ==> cell.bg_ix < 16)
}

impl Buffer {
    /// `textures` are the textures of this buffer's base layer, palette and
    /// fonts.
    pub open spec fn textures_match(&self, textures: Textures) -> bool {
        &&& textures.cells@ == cell_texture(self.layers@[0].cells@)
        &&& textures.palette@ == palette_bytes(self.palette.colors@)
        &&& textures.fonts@ == font_texture(self.fonts@)
        &&& textures.columns == self.width
        &&& textures.lines == self.real_height
        &&& textures.cell_width == self.cell_width()
        &&& textures.cell_height == self.cell_height()
        &&& textures.font_count == self.fonts@.len()
    }

    /// Builds the three textures of the base layer.
    pub fn build_textures(&self) -> (textures: Textures)
        requires
            self.layers@.len() > 0,
            forall|f: int| 0 <= f < self.fonts@.len() ==> (#[trigger] self.fonts@[f]).wf(),
        ensures
            self.textures_match(textures),
    {
        let (cell_width, cell_height) = self.get_font_dimensions();
        Textures {
            cells: self.update_buffer_texture(0),
            palette: self.palette.update_palette_texture(),
            fonts: self.update_font_texture(),
            columns: self.width,
            lines: self.real_height,
            cell_width,
            cell_height,
            font_count: self.fonts.len(),
        }
    }
}

/// The cell texture holds each cell of a layer with low backgrounds as it
/// is.
proof fn lemma_cell_texture_holds(cells: Seq<Option<Cell>>, c: int)
    requires
        0 <= c < cells.len(),
        cells[c] matches Some(cell) && cell.bg_ix < 16,
    ensures
        cell_texture(cells).len() == 4 * cells.len(),
        unpacked_cell(cell_texture(cells).subrange(4 * c, 4 * c + 4)) == cells[c]->0,
{
    let bytes = cell_texture(cells).subrange(4 * c, 4 * c + 4);
    assert(bytes =~= packed_cell(cells[c])) by {
        assert forall|k: int| 0 <= k < 4 implies bytes[k] == packed_cell(cells[c])[k] by {
            assert((4 * c + k) / 4 == c);
            assert((4 * c + k) % 4 == k);
        }
    }
    lemma_pack_round_trip(cells[c]->0);
}

/// What the first pass samples from the textures of a buffer is the pixel
/// of the buffer: the three textures lose nothing that the pass needs,
/// for a buffer of one layer whose backgrounds are below 16.
pub proof fn lemma_textures_show_the_buffer(
    buf: Buffer,
    textures: Textures,
    px: int,
    py: int,
    first_line: int,
    blink_on: bool,
)
    requires
        buf.wf(),
        buf.layers@.len() == 1,
        low_backgrounds(buf),
        buf.textures_match(textures),
        0 <= px < buf.cell_width() * buf.width,
        0 <= py < buf.cell_height() * buf.height,
        0 <= first_line,
        first_line + buf.height <= buf.real_height,
    ensures
        textures.wf(),
        textures.sampled(px, py, first_line, buf.flags.use_ice, blink_on) == buf.pixel(
            px,
            py,
            first_line,
            blink_on,
        ),
{
    let cells = buf.layers@[0].cells@;
    let cw = buf.cell_width();
    let ch = buf.cell_height();
    let colors = buf.palette.colors@;
    let count = buf.fonts@.len() as int;
    assert(cells.len() == buf.width * buf.real_height);
    crate::render::lemma_max_font_nonnegative(buf.fonts@, count);
    lemma_font_layers_len(buf.fonts@, cw, ch, count);
    assert(textures.colors() == colors.len());
    assert forall|c: int| 0 <= c < textures.columns * textures.lines implies {
        &&& (#[trigger] textures.cell(c)).font_index < textures.font_count
        &&& textures.cell(c).fg_ix < textures.colors()
        &&& textures.cell(c).bg_ix < textures.colors()
    } by {
        assert(cells[c] is Some);
        assert(cells[c] matches Some(cell) ==> cell.bg_ix < 16);
        assert(cells[c] matches Some(cell) ==> buf.cell_ok(cell));
        lemma_cell_texture_holds(cells, c);
    }
    assert(textures.wf());

    crate::render::lemma_pixel_in_cell(px, cw, buf.width as int);
    crate::render::lemma_pixel_in_cell(py, ch, buf.height as int);
    let cx = px / cw;
    let line = first_line + py / ch;
    crate::buffer::lemma_cell_index(cx, line, buf.width as int, buf.real_height as int);
    let c = line * buf.width + cx;
    assert(cells[c] is Some);
    assert(cells[c] matches Some(cell) ==> cell.bg_ix < 16);
    assert(cells[c] matches Some(cell) ==> buf.cell_ok(cell));
    lemma_cell_texture_holds(cells, c);
    let cell = cells[c]->0;
    assert(textures.cell(c) == cell);
    assert(crate::buffer::top_cell(buf.layers@, c, 0) is None);
    assert(buf.visible_cell(cx, line) == cell);
    assert(buf.pixel_cell(px, py, first_line) == cell);
    lemma_font_layers(
        buf.fonts@,
        cw,
        ch,
        count,
        cell.font_index as int,
        cell.glyph,
        px % cw,
        py % ch,
    );
    let mask = buf.pixel_mask(px, py, first_line);
    let texel = textures.fonts@[texel_index(
        cell.font_index as int,
        cell.glyph as int,
        px % cw,
        py % ch,
        cw,
        ch,
    )];
    assert((texel == 255u8) == mask);
    let index = crate::render::shade_index(cell, mask, buf.flags.use_ice, blink_on) as int;
    assert(0 <= index < colors.len());
    assert((3 * index) / 3 == index && (3 * index) % 3 == 0);
    assert((3 * index + 1) / 3 == index && (3 * index + 1) % 3 == 1);
    assert((3 * index + 2) / 3 == index && (3 * index + 2) % 3 == 2);
}

} // verus!
