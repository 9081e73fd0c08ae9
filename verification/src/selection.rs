//! Selections of cells by pointer, and the text that a copy takes out.

use crate::buffer::{trimmed_len, Buffer};
use crate::geometry::Position;
use crate::text::push_char;
use vstd::prelude::*;

verus! {

/// A point in the grid in thousandths of a cell.
#[derive(Clone, Copy, Debug, PartialEq, Eq, Structural)]
pub struct FinePoint {
    pub x: i32,
    pub y: i32,
}

/// The whole cells in a length of thousandths, rounded towards zero.
pub open spec fn whole_cells(milli: int) -> int {
    if milli >= 0 {
        milli / 1000
    } else {
        -((-milli) / 1000)
    }
}

pub fn cells_of(milli: i32) -> (cells: i32)
    ensures
        cells == whole_cells(milli as int),
{
    if milli >= 0 {
        milli / 1000
    } else {
        let magnitude: i64 = -(milli as i64);
        (-(magnitude / 1000)) as i32
    }
}

impl FinePoint {
    /// The cell that the point lies in.
    pub open spec fn cell(self) -> Position {
        Position { x: whole_cells(self.x as int) as i32, y: whole_cells(self.y as int) as i32 }
    }

    pub fn to_position(self) -> (pos: Position)
        ensures
            pos == self.cell(),
    {
        Position { x: cells_of(self.x), y: cells_of(self.y) }
    }
}

/// A selection between the point where the pointer went down and the point
/// where it is or was released.
#[derive(Clone, Copy, Debug)]
pub struct Selection {
    pub anchor: FinePoint,
    pub lead: FinePoint,
    /// A rectangle of cells is selected, not a run of text.
    pub block_selection: bool,
    pub anchor_pos: Position,
    pub lead_pos: Position,
    /// The pointer was released: motion no longer moves the lead.
    pub locked: bool,
}

impl Selection {
    /// The positions are those of the two points.
    pub open spec fn wf(&self) -> bool {
        &&& self.anchor_pos == self.anchor.cell()
        &&& self.lead_pos == self.lead.cell()
    }

    /// A selection of the single point `pos`, as a pointer going down there
    /// creates it.
    pub fn new(pos: FinePoint) -> (selection: Self)
        ensures
            selection.wf(),
            selection.anchor == pos,
            selection.lead == pos,
            !selection.block_selection,
            !selection.locked,
    {
        Self {
            anchor: pos,
            lead: pos,
            anchor_pos: pos.to_position(),
            lead_pos: pos.to_position(),
            block_selection: false,
            locked: false,
        }
    }

    /// The selection that a pointer going down at `pos` starts; the
    /// alternate modifier selects a block.
    pub fn pointer_down(pos: FinePoint, alt: bool) -> (selection: Self)
        ensures
            selection.wf(),
            selection.anchor == pos,
            selection.lead == pos,
            selection.block_selection == alt,
            !selection.locked,
    {
        let mut selection = Selection::new(pos);
        selection.block_selection = alt;
        selection
    }

    /// The pointer moved to `pos`. A locked selection stays as it is; an
    /// unlocked one gets `pos` as its lead.
    pub fn pointer_moved(&mut self, pos: FinePoint, alt: bool)
        requires
            old(self).wf(),
        ensures
            final(self).wf(),
            old(self).locked ==> *final(self) == *old(self),
            !old(self).locked ==> *final(self) == (Selection {
                lead: pos,
                lead_pos: pos.cell(),
                block_selection: alt,
                ..*old(self)
            }),
    {
        if !self.locked {
            self.lead = pos;
            self.lead_pos = pos.to_position();
            self.block_selection = alt;
        }
    }

    /// The pointer was released.
    pub fn pointer_released(&mut self)
        ensures
            *final(self) == (Selection { locked: true, ..*old(self) }),
    {
        self.locked = true;
    }

    /// The first of the two ends in reading order.
    pub open spec fn start(&self) -> Position {
        if self.anchor_pos.precedes(self.lead_pos) {
            self.anchor_pos
        } else {
            self.lead_pos
        }
    }

    /// The last of the two ends in reading order.
    pub open spec fn end(&self) -> Position {
        if self.anchor_pos.precedes(self.lead_pos) {
            self.lead_pos
        } else {
            self.anchor_pos
        }
    }

    /// The selection that spans the whole buffer as a run of text.
    pub fn select_all(buf: &Buffer) -> (selection: Self)
        requires
            1 <= buf.width <= 2_000_000,
            1 <= buf.real_height <= 2_000_000,
        ensures
            selection.wf(),
            !selection.block_selection,
            selection.anchor_pos == (Position { x: 0, y: 0 }),
            selection.lead_pos == (Position {
                x: (buf.width - 1) as i32,
                y: (buf.real_height - 1) as i32,
            }),
    {
        let lead = FinePoint {
            x: ((buf.width - 1) * 1000) as i32,
            y: ((buf.real_height - 1) * 1000) as i32,
        };
        let mut selection = Selection::new(FinePoint { x: 0, y: 0 });
        selection.pointer_moved(lead, false);
        selection.pointer_released();
        selection
    }
}

impl Default for Selection {
    fn default() -> (selection: Self)
        ensures
            selection.wf(),
            selection.anchor == (FinePoint { x: 0, y: 0 }),
            selection.lead == (FinePoint { x: 0, y: 0 }),
            !selection.block_selection,
            !selection.locked,
    {
        Selection::new(FinePoint { x: 0, y: 0 })
    }
}

/// The unicode character of each of the 256 glyphs, as the decoder of the
/// file's format gives them.
pub struct GlyphTable {
    pub chars: Vec<char>,
}

impl GlyphTable {
    pub open spec fn wf(&self) -> bool {
        self.chars@.len() == 256
    }

    pub fn to_unicode(&self, glyph: u8) -> (c: char)
        requires
            self.wf(),
        ensures
            c == self.chars@[glyph as int],
    {
        self.chars[glyph as usize]
    }
}

/// `v` limited to the range from `lo` to `hi`.
pub open spec fn clamped(v: int, lo: int, hi: int) -> int {
    if v < lo {
        lo
    } else if v > hi {
        hi
    } else {
        v
    }
}

/// The characters of the cells from column `x0` up to column `x1` of line `y`.
pub open spec fn row_chars(buf: Buffer, table: Seq<char>, y: int, x0: int, x1: int) -> Seq<char> {
    Seq::new((x1 - x0) as nat, |i: int| table[buf.visible_cell(x0 + i, y).glyph as int])
}

/// The column at which a run of text from `start` to `end` begins on line `y`.
pub open spec fn linear_from(buf: Buffer, start: Position, y: int) -> int {
    if y == start.y {
        clamped(start.x as int, 0, buf.width as int)
    } else {
        0
    }
}

/// The column before which a run of text from `start` to `end` stops on line
/// `y`: after the last selected cell, but no further than the line's length
/// without its trailing blanks.
pub open spec fn linear_to(buf: Buffer, end: Position, y: int) -> int {
    let limit = if y == end.y {
        clamped(end.x + 1, 0, buf.width as int)
    } else {
        buf.width as int
    };
    if buf.line_length(y) < limit {
        buf.line_length(y)
    } else {
        limit
    }
}

/// The part of line `y` within a run of text from `start` to `end`.
pub open spec fn linear_row(
    buf: Buffer,
    table: Seq<char>,
    start: Position,
    end: Position,
    y: int,
) -> Seq<char> {
    let from = linear_from(buf, start, y);
    let to = linear_to(buf, end, y);
    if from < to {
        row_chars(buf, table, y, from, to)
    } else {
        Seq::empty()
    }
}

/// The lines from `first` to `last` of a run of text from `start` to `end`,
/// with a newline between one line and the next.
pub open spec fn linear_lines(
    buf: Buffer,
    table: Seq<char>,
    start: Position,
    end: Position,
    first: int,
    last: int,
) -> Seq<char>
    decreases last - first,
{
    if last < first {
        Seq::empty()
    } else if last == first {
        linear_row(buf, table, start, end, first)
    } else {
        linear_lines(buf, table, start, end, first, last - 1).push('\n') + linear_row(
            buf,
            table,
            start,
            end,
            last,
        )
    }
}

/// The lines from `first` up to `upto` of a block between the columns
/// `x0` and `x1`, each followed by a newline.
pub open spec fn block_lines(
    buf: Buffer,
    table: Seq<char>,
    x0: int,
    x1: int,
    first: int,
    upto: int,
) -> Seq<char>
    decreases upto - first,
{
    if upto <= first {
        Seq::empty()
    } else {
        block_lines(buf, table, x0, x1, first, upto - 1) + row_chars(buf, table, upto - 1, x0, x1).push(
            '\n',
        )
    }
}

/// The text that a copy of the selection yields.
///
/// A run of text goes from the first of the two ends to the last, both
/// included, in reading order. A block takes, on each line between the two
/// ends, the columns from the left end up to the right end, the right end
/// excluded. Lines and columns outside the buffer yield nothing.
pub open spec fn selection_text(buf: Buffer, table: Seq<char>, selection: Selection) -> Seq<char> {
    let a = selection.anchor_pos;
    let b = selection.lead_pos;
    if selection.block_selection {
        let x0 = clamped(
            if a.x <= b.x {
                a.x as int
            } else {
                b.x as int
            },
            0,
            buf.width as int,
        );
        let x1 = clamped(
            if a.x <= b.x {
                b.x as int
            } else {
                a.x as int
            },
            0,
            buf.width as int,
        );
        let y0 = clamped(
            if a.y <= b.y {
                a.y as int
            } else {
                b.y as int
            },
            0,
            buf.real_height as int,
        );
        let y1 = clamped(
            if a.y <= b.y {
                b.y + 1
            } else {
                a.y + 1
            },
            0,
            buf.real_height as int,
        );
        block_lines(buf, table, x0, x1, y0, y1)
    } else {
        let start = selection.start();
        let end = selection.end();
        let first = clamped(start.y as int, 0, buf.real_height as int);
        let last = clamped(end.y as int, -1, buf.real_height - 1);
        linear_lines(buf, table, start, end, first, last)
    }
}

fn clamp(v: i64, hi: usize) -> (r: usize)
    ensures
        r == clamped(v as int, 0, hi as int),
{
    if v < 0 {
        0
    } else if v as u64 > hi as u64 {
        hi
    } else {
        v as usize
    }
}

/// Appends the characters of the cells from column `x0` up to `x1` of line `y`.
fn push_row(text: &mut String, buf: &Buffer, table: &GlyphTable, y: usize, x0: usize, x1: usize)
    requires
        buf.wf(),
        table.wf(),
        y < buf.real_height,
        x0 <= x1 <= buf.width,
    ensures
        final(text)@ == old(text)@ + row_chars(*buf, table.chars@, y as int, x0 as int, x1 as int),
{
    let ghost start = text@;
    let mut x = x0;
    assert(start + row_chars(*buf, table.chars@, y as int, x0 as int, x0 as int) =~= start);
    while x < x1
        invariant
            buf.wf(),
            table.wf(),
            y < buf.real_height,
            x0 <= x <= x1 <= buf.width,
            text@ == start + row_chars(*buf, table.chars@, y as int, x0 as int, x as int),
        decreases x1 - x,
    {
        let cell = buf.cell_at(x, y);
        push_char(text, table.to_unicode(cell.glyph));
        assert(text@ =~= start + row_chars(*buf, table.chars@, y as int, x0 as int, x + 1));
        x += 1;
    }
}

/// The text of the selection, ready for the clipboard; `None` without a
/// selection.
pub fn copy_selection(buf: &Buffer, selection: Option<&Selection>, table: &GlyphTable) -> (text:
    Option<String>)
    requires
        buf.wf(),
        table.wf(),
    ensures
        text is None <==> selection is None,
        text matches Some(t) ==> t@ == selection_text(*buf, table.chars@, *selection->0),
{
    match selection {
        Some(selection) => Some(copy_text(buf, selection, table)),
        None => None,
    }
}

/// The text of the selection.
pub fn copy_text(buf: &Buffer, selection: &Selection, table: &GlyphTable) -> (text: String)
    requires
        buf.wf(),
        table.wf(),
    ensures
        text@ == selection_text(*buf, table.chars@, *selection),
{
    let a = selection.anchor_pos;
    let b = selection.lead_pos;
    let mut text = String::new();
    if selection.block_selection {
        let (left, right) = if a.x <= b.x {
            (a.x, b.x)
        } else {
            (b.x, a.x)
        };
        let (top, bottom) = if a.y <= b.y {
            (a.y, b.y)
        } else {
            (b.y, a.y)
        };
        let x0 = clamp(left as i64, buf.width);
        let x1 = clamp(right as i64, buf.width);
        let y0 = clamp(top as i64, buf.real_height);
        let y1 = clamp(bottom as i64 + 1, buf.real_height);
        let mut y = y0;
        while y < y1
            invariant
                buf.wf(),
                table.wf(),
                x0 <= x1 <= buf.width,
                y0 <= y1 <= buf.real_height,
                y0 <= y <= y1 || y1 < y0 == y,
                text@ == block_lines(
                    *buf,
                    table.chars@,
                    x0 as int,
                    x1 as int,
                    y0 as int,
                    y as int,
                ),
            decreases y1 - y,
        {
            push_row(&mut text, buf, table, y, x0, x1);
            push_char(&mut text, '\n');
            assert(text@ =~= block_lines(
                *buf,
                table.chars@,
                x0 as int,
                x1 as int,
                y0 as int,
                y + 1,
            ));
            y += 1;
        }
        text
    } else {
        let (start, end) = if a.is_before(b) {
            (a, b)
        } else {
            (b, a)
        };
        let first = clamp(start.y as i64, buf.real_height);
        if end.y < 0 || first >= buf.real_height {
            assert(selection_text(*buf, table.chars@, *selection) =~= Seq::<char>::empty());
            return text;
        }
        let last = clamp(end.y as i64, buf.real_height - 1);
        if last < first {
            return text;
        }
        let mut y = first;
        while y <= last
            invariant
                buf.wf(),
                table.wf(),
                first <= last < buf.real_height,
                first <= y <= last + 1,
                y == first ==> text@ == Seq::<char>::empty(),
                y > first ==> text@ == linear_lines(
                    *buf,
                    table.chars@,
                    start,
                    end,
                    first as int,
                    y - 1,
                ),
            decreases last + 1 - y,
        {
            if y > first {
                push_char(&mut text, '\n');
            }
            let from = if start.y >= 0 && y == start.y as usize {
                clamp(start.x as i64, buf.width)
            } else {
                0
            };
            let limit = if end.y >= 0 && y == end.y as usize {
                clamp(end.x as i64 + 1, buf.width)
            } else {
                buf.width
            };
            let length = buf.get_line_length(y);
            let to = if length < limit {
                length
            } else {
                limit
            };
            assert(from == linear_from(*buf, start, y as int));
            assert(to == linear_to(*buf, end, y as int));
            let ghost before = text@;
            if from < to {
                push_row(&mut text, buf, table, y, from, to);
            }
            assert(text@ =~= before + linear_row(*buf, table.chars@, start, end, y as int));
            y += 1;
        }
        text
    }
}


/// `s` without the blanks at its end.
pub open spec fn without_trailing_blanks(s: Seq<char>) -> Seq<char>
    decreases s.len(),
{
    if s.len() > 0 && s.last() == ' ' {
        without_trailing_blanks(s.drop_last())
    } else {
        s
    }
}

/// The first `n` lines of the buffer, each without its trailing blanks, with
/// a newline between one line and the next.
pub open spec fn trimmed_lines(buf: Buffer, table: Seq<char>, n: int) -> Seq<char>
    decreases n,
{
    if n <= 0 {
        Seq::empty()
    } else if n == 1 {
        without_trailing_blanks(row_chars(buf, table, 0, 0, buf.width as int))
    } else {
        trimmed_lines(buf, table, n - 1).push('\n') + without_trailing_blanks(
            row_chars(buf, table, n - 1, 0, buf.width as int),
        )
    }
}

/// Every glyph shown is an ASCII character and the table maps it to itself.
pub open spec fn pure_ascii(buf: Buffer, table: Seq<char>) -> bool {
    &&& table.len() == 256
    &&& forall|g: u8| g < 128 ==> #[trigger] table[g as int] == g as char
    &&& forall|x: int, y: int|
        0 <= x < buf.width && 0 <= y < buf.real_height ==> (#[trigger] buf.visible_cell(x, y)).glyph
            < 128
}

/// Trimming the first `n` characters of a line of ASCII glyphs leaves the
/// characters up to the last glyph that is not blank.
proof fn lemma_trimmed_row(buf: Buffer, table: Seq<char>, y: int, n: int)
    requires
        pure_ascii(buf, table),
        0 <= y < buf.real_height,
        0 <= n <= buf.width,
    ensures
        without_trailing_blanks(row_chars(buf, table, y, 0, n)) == row_chars(
            buf,
            table,
            y,
            0,
            trimmed_len(buf.row_glyphs(y), n),
        ),
        0 <= trimmed_len(buf.row_glyphs(y), n) <= n,
    decreases n,
{
    let row = row_chars(buf, table, y, 0, n);
    if n > 0 {
        let glyph = buf.visible_cell(n - 1, y).glyph;
        assert(buf.row_glyphs(y)[n - 1] == glyph);
        assert(row.last() == table[glyph as int]);
        assert(table[glyph as int] == glyph as char);
        assert(32u8 as char == ' ');
        if glyph == 32u8 {
            assert(row.drop_last() =~= row_chars(buf, table, y, 0, n - 1));
            lemma_trimmed_row(buf, table, y, n - 1);
        }
    }
}

/// The induction behind [`lemma_copy_all_is_trimmed_lines`].
proof fn lemma_all_lines(buf: Buffer, table: Seq<char>, end: Position, n: int)
    requires
        buf.wf(),
        pure_ascii(buf, table),
        1 <= n <= buf.real_height,
        end.x == buf.width - 1,
        end.y == buf.real_height - 1,
    ensures
        linear_lines(buf, table, Position { x: 0, y: 0 }, end, 0, n - 1) == trimmed_lines(
            buf,
            table,
            n,
        ),
    decreases n,
{
    let start = Position { x: 0, y: 0 };
    let y = n - 1;
    lemma_trimmed_row(buf, table, y, buf.width as int);
    assert(linear_from(buf, start, y) == 0);
    assert(linear_to(buf, end, y) == buf.line_length(y));
    assert(linear_row(buf, table, start, end, y) =~= row_chars(
        buf,
        table,
        y,
        0,
        buf.line_length(y),
    ));
    if n > 1 {
        lemma_all_lines(buf, table, end, n - 1);
    }
}

/// Copying a run of text that spans a buffer of ASCII glyphs yields the
/// buffer's lines without their trailing blanks, joined by newlines.
pub proof fn lemma_copy_all_is_trimmed_lines(buf: Buffer, table: Seq<char>, selection: Selection)
    requires
        buf.wf(),
        pure_ascii(buf, table),
        1 <= buf.width <= i32::MAX,
        1 <= buf.real_height <= i32::MAX,
        !selection.block_selection,
        selection.anchor_pos == (Position { x: 0, y: 0 }),
        selection.lead_pos == (Position {
            x: (buf.width - 1) as i32,
            y: (buf.real_height - 1) as i32,
        }),
    ensures
        selection_text(buf, table, selection) == trimmed_lines(
            buf,
            table,
            buf.real_height as int,
        ),
{
    lemma_all_lines(buf, table, selection.lead_pos, buf.real_height as int);
}


/// Thousandths of a cell in one pixel times thousandths of a pixel.
pub const FINE_PER_PIXEL: u128 = 1_000_000;

/// `v` limited to the range of `i32`.
pub open spec fn limited(v: int) -> int {
    clamped(v, i32::MIN as int, i32::MAX as int)
}

/// The coordinate, in thousandths of a cell, of a pointer that is
/// `offset` pixels from the edge of the drawn buffer whose cells measure
/// `cell_size` thousandths of a pixel, where `first` cells lie before the
/// edge. Fractions below a thousandth of a cell are dropped.
pub open spec fn fine_coordinate(offset: int, cell_size: int, first: int) -> int {
    limited(crate::viewport::toward_zero(offset * 1_000_000, cell_size) + first * 1000)
}

fn coordinate(pointer: i32, edge: i64, cell_size: u64, first: u32) -> (fine: i32)
    requires
        cell_size > 0,
    ensures
        fine == fine_coordinate(pointer - edge, cell_size as int, first as int),
{
    let offset: i128 = pointer as i128 - edge as i128;
    let shift: i128 = first as i128 * 1000;
    let cells: i128 = if offset >= 0 {
        ((offset as u128 * FINE_PER_PIXEL) / (cell_size as u128)) as i128
    } else {
        let magnitude: u128 = (-offset) as u128;
        assert((pointer - edge) * 1_000_000 == -(magnitude * 1_000_000)) by (nonlinear_arith)
            requires
                magnitude == -(pointer - edge),
        ;
        -(((magnitude * FINE_PER_PIXEL) / (cell_size as u128)) as i128)
    };
    let fine = cells + shift;
    if fine < i32::MIN as i128 {
        i32::MIN
    } else if fine > i32::MAX as i128 {
        i32::MAX
    } else {
        fine as i32
    }
}

/// The point of the grid under the pointer at (`px`, `py`), where the drawn
/// buffer has its corner at (`left`, `top`), its cells measure `cell_width`
/// by `cell_height` thousandths of a pixel and its first visible line is
/// `first_line`.
pub fn point_at(
    px: i32,
    py: i32,
    left: i64,
    top: i64,
    cell_width: u64,
    cell_height: u64,
    first_line: u32,
) -> (point: FinePoint)
    requires
        cell_width > 0,
        cell_height > 0,
    ensures
        point.x == fine_coordinate(px - left, cell_width as int, 0),
        point.y == fine_coordinate(py - top, cell_height as int, first_line as int),
{
    FinePoint {
        x: coordinate(px, left, cell_width, 0),
        y: coordinate(py, top, cell_height, first_line),
    }
}

} // verus!
