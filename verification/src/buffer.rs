//! The character buffer: cells in layers, a palette, bitmap fonts and the
//! flags that a file's metadata sets.

use crate::color::Color;
use crate::sixel::Sixel;
use vstd::prelude::*;

verus! {

/// The glyph that counts as blank when a line is trimmed.
pub const SPACE_GLYPH: u8 = 32;

/// Number of glyphs in a font.
pub const GLYPHS_PER_FONT: usize = 256;

/// Largest glyph width in pixels.
pub const MAX_FONT_WIDTH: usize = 16;

/// Attribute bits of a cell.
#[derive(Clone, Copy, Debug, PartialEq, Eq, Structural)]
pub struct CellFlags {
    pub blink: bool,
    pub underline: bool,
    pub double_height_top: bool,
    pub double_height_bottom: bool,
}

/// One character position: a glyph of a font with two palette indices.
#[derive(Clone, Copy, Debug, PartialEq, Eq, Structural)]
pub struct Cell {
    pub glyph: u8,
    pub font_index: u8,
    pub fg_ix: u8,
    pub bg_ix: u8,
    pub flags: CellFlags,
}

/// An ordered colour table.
pub struct Palette {
    pub colors: Vec<Color>,
}

/// A bitmap font of 256 glyphs. Row `y` of glyph `g` is `rows[g * height + y]`;
/// its leftmost pixel is the highest bit.
pub struct Font {
    pub width: usize,
    pub height: usize,
    pub rows: Vec<u16>,
}

/// Whether pixel `x` of a glyph row is set.
pub open spec fn row_bit(row: u16, x: int) -> bool {
    (row >> ((15 - x) as u16)) & 1u16 == 1u16
}

impl Font {
    /// The glyph is at most 16 pixels wide and every row is present.
    pub open spec fn wf(&self) -> bool {
        &&& self.width <= 16
        &&& self.rows@.len() == 256 * self.height
    }

    /// The mask of glyph `glyph` at pixel (`x`, `y`). Pixels beyond the
    /// glyph's own extent are unset: a font smaller than the cell is padded
    /// on the right and below.
    pub open spec fn texel(&self, glyph: u8, x: int, y: int) -> bool {
        &&& 0 <= x < self.width
        &&& 0 <= y < self.height
        &&& row_bit(self.rows@[glyph * self.height + y], x)
    }

    pub fn mask(&self, glyph: u8, x: usize, y: usize) -> (set: bool)
        requires
            self.wf(),
        ensures
            set == self.texel(glyph, x as int, y as int),
    {
        if x < self.width && y < self.height {
            let g = glyph as usize;
            let total = self.rows.len();
            assert(total == 256 * self.height);
            assert(0 <= g * self.height && g * self.height + y < 256 * self.height)
                by (nonlinear_arith)
                requires
                    0 <= g <= 255,
                    0 <= y < self.height,
            ;
            let row = self.rows[g * self.height + y];
            let shift: u16 = 15 - (x as u16);
            (row >> shift) & 1u16 == 1u16
        } else {
            false
        }
    }
}

/// What a file's metadata asks of the renderer.
#[derive(Clone, Copy, Debug, PartialEq, Eq, Structural)]
pub struct BufferFlags {
    /// The blink attribute selects a bright background and nothing blinks.
    pub use_ice: bool,
    /// Glyphs of 8 pixels are drawn 9 pixels wide.
    pub use_letter_spacing: bool,
    /// Cells are stretched vertically.
    pub use_aspect_ratio: bool,
}

/// One layer of cells in row-major order. `None` is a transparent cell.
pub struct Layer {
    pub cells: Vec<Option<Cell>>,
}

/// A grid of `width` by `real_height` cells, of which `height` lines are
/// shown at a time; the lines above are the scrollback.
pub struct Buffer {
    pub width: usize,
    pub height: usize,
    pub real_height: usize,
    pub layers: Vec<Layer>,
    pub palette: Palette,
    pub fonts: Vec<Font>,
    pub flags: BufferFlags,
    pub sixels: Vec<Sixel>,
}

/// The topmost cell at index `idx` among the first `n` layers that is not
/// transparent.
pub open spec fn top_cell(layers: Seq<Layer>, idx: int, n: int) -> Option<Cell>
    decreases n,
{
    if n <= 0 {
        None
    } else {
        match layers[n - 1].cells@[idx] {
            Some(cell) => Some(cell),
            None => top_cell(layers, idx, n - 1),
        }
    }
}

/// The length of the first `n` glyphs of `row` without its trailing blanks.
pub open spec fn trimmed_len(row: Seq<u8>, n: int) -> int
    decreases n,
{
    if n <= 0 {
        0
    } else if row[n - 1] != 32u8 {
        n
    } else {
        trimmed_len(row, n - 1)
    }
}

impl Buffer {
    /// The buffer's invariant: every layer is a full grid, the base layer is
    /// opaque, and every cell names a font and colours that exist.
    pub open spec fn wf(&self) -> bool {
        &&& self.height <= self.real_height
        &&& self.layers@.len() >= 1
        &&& forall|l: int|
            0 <= l < self.layers@.len() ==> (#[trigger] self.layers@[l]).cells@.len() == self.width
                * self.real_height
        &&& forall|i: int|
            0 <= i < self.layers@[0].cells@.len() ==> (#[trigger] self.layers@[0].cells@[i]) is Some
        &&& forall|l: int, i: int|
            0 <= l < self.layers@.len() && 0 <= i < self.layers@[l].cells@.len() ==> (
            #[trigger] self.layers@[l].cells@[i] matches Some(cell) ==> self.cell_ok(cell))
        &&& forall|f: int| 0 <= f < self.fonts@.len() ==> (#[trigger] self.fonts@[f]).wf()
    }

    /// The cell names a font and two colours of this buffer.
    pub open spec fn cell_ok(&self, cell: Cell) -> bool {
        &&& cell.font_index < self.fonts@.len()
        &&& cell.fg_ix < self.palette.colors@.len()
        &&& cell.bg_ix < self.palette.colors@.len()
    }

    /// The cell shown at column `x`, line `y`: that of the topmost layer
    /// that is not transparent there.
    pub open spec fn visible_cell(&self, x: int, y: int) -> Cell {
        top_cell(self.layers@, y * self.width + x, self.layers@.len() as int)->0
    }

    /// The glyphs of line `y`.
    pub open spec fn row_glyphs(&self, y: int) -> Seq<u8> {
        Seq::new(self.width as nat, |x: int| self.visible_cell(x, y).glyph)
    }

    /// The length of line `y` up to its rightmost cell that is not blank.
    pub open spec fn line_length(&self, y: int) -> int {
        trimmed_len(self.row_glyphs(y), self.width as int)
    }

    /// The topmost cell is a cell of some layer, and so names a font and
    /// colours that exist.
    pub proof fn lemma_visible_cell_ok(&self, x: int, y: int)
        requires
            self.wf(),
            0 <= x < self.width,
            0 <= y < self.real_height,
        ensures
            0 <= y * self.width + x < self.width * self.real_height,
            top_cell(self.layers@, y * self.width + x, self.layers@.len() as int) is Some,
            self.cell_ok(self.visible_cell(x, y)),
    {
        lemma_cell_index(x, y, self.width as int, self.real_height as int);
        let idx = y * self.width + x;
        self.lemma_top_cell_ok(idx, self.layers@.len() as int);
    }

    proof fn lemma_top_cell_ok(&self, idx: int, n: int)
        requires
            self.wf(),
            0 <= idx < self.width * self.real_height,
            1 <= n <= self.layers@.len(),
        ensures
            top_cell(self.layers@, idx, n) is Some,
            self.cell_ok(top_cell(self.layers@, idx, n)->0),
        decreases n,
    {
        assert(self.layers@[n - 1].cells@.len() == self.width * self.real_height);
        assert(self.layers@[0].cells@.len() == self.width * self.real_height);
        match self.layers@[n - 1].cells@[idx] {
            Some(cell) => {
                assert(self.layers@[n - 1].cells@[idx] matches Some(c) ==> self.cell_ok(c));
            },
            None => {
                if n == 1 {
                    assert(self.layers@[0].cells@[idx] is Some);
                } else {
                    self.lemma_top_cell_ok(idx, n - 1);
                }
            },
        }
    }

    /// The cell shown at column `x`, line `y`.
    pub fn cell_at(&self, x: usize, y: usize) -> (cell: Cell)
        requires
            self.wf(),
            x < self.width,
            y < self.real_height,
        ensures
            cell == self.visible_cell(x as int, y as int),
            self.cell_ok(cell),
    {
        let total = self.layers[0].cells.len();
        proof {
            self.lemma_visible_cell_ok(x as int, y as int);
            assert(self.layers@[0].cells@.len() == self.width * self.real_height);
            assert(total == self.width * self.real_height);
            assert(0 <= y * self.width) by (nonlinear_arith)
                requires
                    0 <= y,
                    0 <= self.width,
            ;
        }
        let idx = y * self.width + x;
        let mut n = self.layers.len();
        while n > 1
            invariant
                self.wf(),
                1 <= n <= self.layers@.len(),
                0 <= idx < self.width * self.real_height,
                idx == y * self.width + x,
                top_cell(self.layers@, idx as int, n as int) == top_cell(
                    self.layers@,
                    idx as int,
                    self.layers@.len() as int,
                ),
            decreases n,
        {
            assert(self.layers@[n - 1].cells@.len() == self.width * self.real_height);
            match self.layers[n - 1].cells[idx] {
                Some(cell) => {
                    return cell;
                },
                None => {},
            }
            n -= 1;
        }
        assert(self.layers@[0].cells@.len() == self.width * self.real_height);
        assert(self.layers@[0].cells@[idx as int] is Some);
        assert(top_cell(self.layers@, idx as int, 0) is None);
        match self.layers[0].cells[idx] {
            Some(cell) => cell,
            None => Cell {
                glyph: 0,
                font_index: 0,
                fg_ix: 0,
                bg_ix: 0,
                flags: CellFlags {
                    blink: false,
                    underline: false,
                    double_height_top: false,
                    double_height_bottom: false,
                },
            },
        }
    }

    /// The length of line `y` up to its rightmost cell that is not blank.
    pub fn get_line_length(&self, y: usize) -> (len: usize)
        requires
            self.wf(),
            y < self.real_height,
        ensures
            len == self.line_length(y as int),
            len <= self.width,
    {
        let mut n = self.width;
        let ghost row = self.row_glyphs(y as int);
        while n > 0
            invariant
                self.wf(),
                y < self.real_height,
                n <= self.width,
                row == self.row_glyphs(y as int),
                trimmed_len(row, n as int) == trimmed_len(row, self.width as int),
            decreases n,
        {
            let cell = self.cell_at(n - 1, y);
            assert(row[n - 1] == cell.glyph);
            if cell.glyph != SPACE_GLYPH {
                return n;
            }
            n -= 1;
        }
        0
    }
}

impl Font {
    /// Whether the font is well formed.
    pub fn validate(&self) -> (ok: bool)
        ensures
            ok == self.wf(),
    {
        if self.width > MAX_FONT_WIDTH {
            return false;
        }
        let total = self.rows.len();
        match GLYPHS_PER_FONT.checked_mul(self.height) {
            Some(rows) => total == rows,
            None => false,
        }
    }
}

impl Buffer {
    /// Whether every cell of layer `l` that is not transparent names a font
    /// and colours that exist, and, for the base layer, whether no cell is
    /// transparent.
    pub open spec fn layer_ok(&self, l: int) -> bool {
        forall|i: int|
            0 <= i < self.layers@[l].cells@.len() ==> match #[trigger] self.layers@[l].cells@[i] {
                Some(cell) => self.cell_ok(cell),
                None => l != 0,
            }
    }

    fn validate_layer(&self, l: usize) -> (ok: bool)
        requires
            l < self.layers@.len(),
        ensures
            ok == self.layer_ok(l as int),
    {
        let cells = &self.layers[l].cells;
        let mut i: usize = 0;
        while i < cells.len()
            invariant
                l < self.layers@.len(),
                cells@ == self.layers@[l as int].cells@,
                i <= cells@.len(),
                forall|k: int|
                    0 <= k < i ==> match #[trigger] cells@[k] {
                        Some(cell) => self.cell_ok(cell),
                        None => l != 0,
                    },
            decreases cells@.len() - i,
        {
            match cells[i] {
                Some(cell) => {
                    if cell.font_index as usize >= self.fonts.len() || cell.fg_ix as usize
                        >= self.palette.colors.len() || cell.bg_ix as usize
                        >= self.palette.colors.len() {
                        return false;
                    }
                },
                None => {
                    if l == 0 {
                        return false;
                    }
                },
            }
            i += 1;
        }
        true
    }

    /// Whether the buffer is well formed: the check that a decoder runs
    /// once, so that the renderer never has to check an index.
    pub fn validate(&self) -> (ok: bool)
        ensures
            ok == self.wf(),
    {
        if self.height > self.real_height || self.layers.len() == 0 {
            return false;
        }
        let base = self.layers[0].cells.len();
        let count = match self.width.checked_mul(self.real_height) {
            Some(count) => count,
            None => {
                assert(base == self.layers@[0].cells@.len());
                return false;
            },
        };
        let mut f: usize = 0;
        while f < self.fonts.len()
            invariant
                f <= self.fonts@.len(),
                forall|k: int| 0 <= k < f ==> (#[trigger] self.fonts@[k]).wf(),
            decreases self.fonts@.len() - f,
        {
            if !self.fonts[f].validate() {
                return false;
            }
            f += 1;
        }
        let mut l: usize = 0;
        while l < self.layers.len()
            invariant
                l <= self.layers@.len(),
                count == self.width * self.real_height,
                forall|k: int|
                    0 <= k < l ==> (#[trigger] self.layers@[k]).cells@.len() == self.width
                        * self.real_height,
                forall|k: int| 0 <= k < l ==> self.layer_ok(k),
            decreases self.layers@.len() - l,
        {
            if self.layers[l].cells.len() != count {
                return false;
            }
            if !self.validate_layer(l) {
                assert(!self.wf()) by {
                    let bad = choose|i: int|
                        0 <= i < self.layers@[l as int].cells@.len() && !(
                        match #[trigger] self.layers@[l as int].cells@[i] {
                            Some(cell) => self.cell_ok(cell),
                            None => l != 0,
                        });
                    if self.wf() {
                        assert(self.layers@[l as int].cells@[bad] matches Some(cell)
                            ==> self.cell_ok(cell));
                        if l == 0 {
                            assert(self.layers@[0].cells@[bad] is Some);
                        }
                    }
                }
                return false;
            }
            l += 1;
        }
        assert(self.wf()) by {
            assert(self.layer_ok(0));
            assert forall|i: int| 0 <= i < self.layers@[0].cells@.len() implies (
            #[trigger] self.layers@[0].cells@[i]) is Some by {}
            assert forall|k: int, i: int|
                0 <= k < self.layers@.len() && 0 <= i < self.layers@[k].cells@.len() implies (
            #[trigger] self.layers@[k].cells@[i] matches Some(cell) ==> self.cell_ok(cell)) by {
                assert(self.layer_ok(k));
            }
        }
        true
    }
}

/// Cell (`x`, `y`) of a grid lies within the grid's row-major array.
pub proof fn lemma_cell_index(x: int, y: int, width: int, height: int)
    requires
        0 <= x < width,
        0 <= y < height,
    ensures
        0 <= y * width + x < width * height,
{
    assert(y * width + x < width * height) by (nonlinear_arith)
        requires
            0 <= x < width,
            0 <= y < height,
    ;
    assert(0 <= y * width) by (nonlinear_arith)
        requires
            0 <= y,
            0 <= width,
    ;
}

} // verus!
