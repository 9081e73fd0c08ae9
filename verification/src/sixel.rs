//! Sixel overlays and the cache that follows their decoding from frame to
//! frame: which rows are turned into RGBA bytes, when an overlay is ready for
//! upload, and which earlier overlays a finished one hides.

use crate::color::Color;
use crate::geometry::{Position, Rectangle, Size};
use vstd::prelude::*;

verus! {

/// Number of pixel rows in one sixel row.
pub const SIXEL_ROW_HEIGHT: usize = 6;

/// A decoder that has advanced by fewer pixel rows than this since the last
/// refresh is not refreshed again yet.
pub const REFRESH_STRIDE: usize = 30;

/// How far the decoder has come with one overlay.
#[derive(Clone, Copy, Debug, PartialEq, Eq, Structural)]
pub enum SixelStatus {
    /// Still decoding; the argument counts the sixel rows decoded so far.
    Parsing(usize),
    Finished,
    Error,
}

impl SixelStatus {
    /// The decoder has stopped, with or without success.
    pub open spec fn terminal(self) -> bool {
        self is Finished || self is Error
    }

    pub fn is_terminal(self) -> (done: bool)
        ensures
            done == self.terminal(),
    {
        match self {
            SixelStatus::Parsing(_) => false,
            SixelStatus::Finished => true,
            SixelStatus::Error => true,
        }
    }
}

/// A bitmap anchored at a cell. `picture[x][y]` is the colour of the pixel in
/// column `x`, row `y`; an unset or missing pixel is transparent.
pub struct Sixel {
    pub position: Position,
    pub read_status: SixelStatus,
    pub picture: Vec<Vec<Option<Color>>>,
}

/// The mathematical content of a [`Sixel`].
pub struct SixelView {
    pub position: Position,
    pub status: SixelStatus,
    pub picture: Seq<Seq<Option<Color>>>,
}

impl SixelView {
    /// Number of pixel columns.
    pub open spec fn width(self) -> nat {
        self.picture.len()
    }

    /// Number of pixel rows, taken from the first column.
    pub open spec fn height(self) -> nat {
        if self.picture.len() > 0 {
            self.picture[0].len()
        } else {
            0
        }
    }

    /// The pixel row up to which the picture can be decoded now.
    pub open spec fn current_line(self) -> nat {
        match self.status {
            SixelStatus::Parsing(rows) => (rows * 6) as nat,
            _ => self.height(),
        }
    }

    /// The number of pixel rows that the RGBA buffer has to hold.
    pub open spec fn rows_needed(self) -> nat {
        if self.current_line() > self.height() {
            self.current_line()
        } else {
            self.height()
        }
    }

    /// The RGBA buffer of the overlay fits the limits of a texture.
    pub open spec fn fits(self) -> bool {
        4 * self.width() * self.rows_needed() <= i32::MAX
    }

    /// The four bytes of the pixel in column `x`, row `y`.
    pub open spec fn pixel(self, x: int, y: int) -> Seq<u8> {
        if 0 <= x < self.picture.len() && 0 <= y < self.picture[x].len()
            && self.picture[x][y] is Some {
            let color = self.picture[x][y]->0;
            seq![color.r, color.g, color.b, 0xFFu8]
        } else {
            seq![0u8, 0u8, 0u8, 0u8]
        }
    }

    /// The RGBA buffer after the rows from `from_line` up to the current line
    /// have been decoded into `old`: it is long enough for every row, bytes
    /// of those rows hold the pixels, and every other byte is kept, or is
    /// zero where `old` had none.
    pub open spec fn decoded(self, old: Seq<u8>, from_line: nat) -> Seq<u8> {
        let needed = 4 * self.width() * self.rows_needed();
        let len = if old.len() > needed {
            old.len()
        } else {
            needed
        };
        Seq::new(
            len as nat,
            |b: int|
                {
                    let p = b / 4;
                    let y = p / (self.width() as int);
                    let x = p % (self.width() as int);
                    if from_line <= y < self.current_line() {
                        self.pixel(x, y)[b % 4]
                    } else if b < old.len() {
                        old[b]
                    } else {
                        0u8
                    }
                },
        )
    }
}

impl View for Sixel {
    type V = SixelView;

    open spec fn view(&self) -> SixelView {
        SixelView {
            position: self.position,
            status: self.read_status,
            picture: Seq::new(self.picture@.len(), |x: int| self.picture@[x]@),
        }
    }
}

impl Sixel {
    pub fn width(&self) -> (w: usize)
        ensures
            w == self@.width(),
    {
        self.picture.len()
    }

    pub fn height(&self) -> (h: usize)
        ensures
            h == self@.height(),
    {
        if self.picture.len() > 0 {
            self.picture[0].len()
        } else {
            0
        }
    }

    /// Whether the RGBA buffer of the overlay fits the limits of a texture.
    pub fn fits_texture(&self) -> (fits: bool)
        ensures
            fits == self@.fits(),
    {
        let w = self.width();
        let h = self.height();
        let line: u128 = match self.read_status {
            SixelStatus::Parsing(rows) => rows as u128 * 6,
            _ => h as u128,
        };
        let rows: u128 = if line > h as u128 {
            line
        } else {
            h as u128
        };
        assert(self@.rows_needed() == rows);
        if w as u128 > 0x7FFF_FFFF || rows > 0x7FFF_FFFF {
            if w == 0 || rows == 0 {
                assert(4 * self@.width() * self@.rows_needed() == 0) by (nonlinear_arith)
                    requires
                        self@.width() == 0 || self@.rows_needed() == 0,
                ;
                return true;
            }
            assert(4 * self@.width() * self@.rows_needed() > i32::MAX) by (nonlinear_arith)
                requires
                    self@.width() >= 1,
                    self@.rows_needed() >= 1,
                    self@.width() > 0x7FFF_FFFF || self@.rows_needed() > 0x7FFF_FFFF,
            ;
            return false;
        }
        assert(w * rows <= 0x7FFF_FFFF * 0x7FFF_FFFF) by (nonlinear_arith)
            requires
                0 <= w <= 0x7FFF_FFFF,
                0 <= rows <= 0x7FFF_FFFF,
        ;
        let bytes: u128 = 4 * (w as u128 * rows);
        assert(bytes == 4 * self@.width() * self@.rows_needed()) by (nonlinear_arith)
            requires
                bytes == 4 * (w * rows),
                w == self@.width(),
                rows == self@.rows_needed(),
        ;
        bytes <= 0x7FFF_FFFF
    }

    /// The four bytes of one pixel.
    pub fn pixel_rgba(&self, x: usize, y: usize) -> (rgba: [u8; 4])
        ensures
            rgba@ == self@.pixel(x as int, y as int),
    {
        let mut rgba: [u8; 4] = [0, 0, 0, 0];
        if x < self.picture.len() {
            let column = &self.picture[x];
            if y < column.len() {
                if let Some(color) = column[y] {
                    rgba = [color.r, color.g, color.b, 0xFF];
                }
            }
        }
        assert(rgba@ =~= self@.pixel(x as int, y as int));
        rgba
    }

    /// The pixel row up to which the picture can be decoded now.
    pub fn current_line(&self) -> (line: usize)
        requires
            self@.current_line() <= usize::MAX,
        ensures
            line == self@.current_line(),
    {
        match self.read_status {
            SixelStatus::Parsing(rows) => rows * SIXEL_ROW_HEIGHT,
            _ => self.height(),
        }
    }

    /// Decodes the pixel rows from `from_line` up to the current line into
    /// `data`, which is first grown with zero bytes to hold every row.
    pub fn decode_rows(&self, data: Vec<u8>, from_line: usize) -> (out: Vec<u8>)
        requires
            self@.fits(),
            self@.width() > 0,
        ensures
            out@ == self@.decoded(data@, from_line as nat),
    {
        let w = self.width();
        let h = self.height();
        proof {
            lemma_fits_bounds(self@);
        }
        let cur = self.current_line();
        let rows = if cur > h {
            cur
        } else {
            h
        };
        assert(rows == self@.rows_needed());
        assert(4 * (w * rows) == 4 * self@.width() * self@.rows_needed()) by (nonlinear_arith)
            requires
                w == self@.width(),
                rows == self@.rows_needed(),
        ;
        let needed = 4 * (w * rows);
        let mut v = data;
        if v.len() < needed {
            v.resize(needed, 0);
        }
        let ghost base = v@;
        assert(forall|b: int|
            0 <= b < base.len() ==> base[b] == if b < data@.len() {
                data@[b]
            } else {
                0u8
            }) by {
            if data@.len() < needed {
                assert(base.subrange(0, data@.len() as int) == data@);
                assert forall|b: int| 0 <= b < base.len() implies base[b] == if b < data@.len() {
                    data@[b]
                } else {
                    0u8
                } by {
                    if b < data@.len() {
                        assert(base.subrange(0, data@.len() as int)[b] == base[b]);
                    }
                }
            }
        }
        if from_line < cur {
            assert(from_line * w <= cur * w && cur * w <= w * rows) by (nonlinear_arith)
                requires
                    from_line < cur,
                    cur <= rows,
                    w > 0,
            ;
            let first = from_line * w;
            let end = cur * w;
            let mut p = first;
            while p < end
                invariant
                    first <= p <= end,
                    4 * end <= v@.len() <= usize::MAX,
                    v@.len() == base.len(),
                    w == self@.width(),
                    w > 0,
                    forall|b: int|
                        0 <= b < v@.len() ==> #[trigger] v@[b] == if 4 * first <= b < 4 * p {
                            self@.pixel((b / 4) % (w as int), (b / 4) / (w as int))[b % 4]
                        } else {
                            base[b]
                        },
                decreases end - p,
            {
                let px = self.pixel_rgba(p % w, p / w);
                let i = 4 * p;
                v[i] = px[0];
                v[i + 1] = px[1];
                v[i + 2] = px[2];
                v[i + 3] = px[3];
                p += 1;
            }
        }
        proof {
            let goal = self@.decoded(data@, from_line as nat);
            assert(v@.len() == goal.len());
            assert forall|b: int| 0 <= b < v@.len() implies v@[b] == goal[b] by {
                lemma_row_bounds(b / 4, w as int, from_line as int, cur as int);
            }
            assert(v@ =~= goal);
        }
        v
    }
}

/// An overlay that fits has a current line and a buffer length within the
/// machine's range.
proof fn lemma_fits_bounds(s: SixelView)
    requires
        s.fits(),
        s.width() > 0,
    ensures
        s.current_line() <= i32::MAX,
        s.height() <= i32::MAX,
        s.rows_needed() <= i32::MAX,
        s.rows_needed() > 0 ==> s.width() <= i32::MAX,
{
    let w = s.width() as int;
    let r = s.rows_needed() as int;
    assert(r <= 4 * w * r) by (nonlinear_arith)
        requires
            w >= 1,
            r >= 0,
    ;
    if r > 0 {
        assert(w <= 4 * w * r) by (nonlinear_arith)
            requires
                w >= 1,
                r >= 1,
        ;
    }
}

/// A pixel lies in the rows from `lo` up to `hi` exactly when its index lies
/// between the first pixel of row `lo` and the first pixel of row `hi`.
proof fn lemma_row_bounds(p: int, w: int, lo: int, hi: int)
    requires
        w > 0,
        p >= 0,
    ensures
        (lo <= p / w) <==> (lo * w <= p),
        (p / w < hi) <==> (p < hi * w),
{
    vstd::arithmetic::div_mod::lemma_fundamental_div_mod(p, w);
    let q = p / w;
    let r = p % w;
    assert(0 <= r < w) by {
        vstd::arithmetic::div_mod::lemma_mod_bound(p, w);
    }
    assert(p == w * q + r);
    assert((lo <= q) <==> (lo * w <= w * q + r)) by (nonlinear_arith)
        requires
            0 <= r < w,
    ;
    assert((q < hi) <==> (w * q + r < hi * w)) by (nonlinear_arith)
        requires
            0 <= r < w,
    ;
}


/// A handle of a texture on the graphics device.
pub type TextureId = u32;

/// What the cache remembers of one overlay.
///
/// Until the decoder has stopped, `data_opt` holds the RGBA bytes decoded so
/// far. Once it has stopped they stay until [`SixelCache::attach_texture`]
/// records the uploaded texture and drops them.
pub struct SixelCacheEntry {
    pub status: SixelStatus,
    /// The pixel row up to which the overlay has been decoded.
    pub old_line: usize,
    pub data_opt: Option<Vec<u8>>,
    pub pos: Position,
    pub size: Size,
    pub texture_opt: Option<TextureId>,
}

/// The mathematical content of a [`SixelCacheEntry`].
pub struct EntryView {
    pub status: SixelStatus,
    pub old_line: nat,
    pub data: Option<Seq<u8>>,
    pub pos: Position,
    pub size: Size,
    pub texture: Option<TextureId>,
}

impl EntryView {
    /// The cells that the overlay occupies.
    pub open spec fn rect(self) -> Rectangle {
        Rectangle { start: self.pos, size: self.size }
    }

    /// The texture of the entry as a sequence of at most one handle.
    pub open spec fn textures(self) -> Seq<TextureId> {
        match self.texture {
            Some(texture) => seq![texture],
            None => Seq::empty(),
        }
    }
}

impl View for SixelCacheEntry {
    type V = EntryView;

    open spec fn view(&self) -> EntryView {
        EntryView {
            status: self.status,
            old_line: self.old_line as nat,
            data: match self.data_opt {
                Some(data) => Some(data@),
                None => None,
            },
            pos: self.pos,
            size: self.size,
            texture: self.texture_opt,
        }
    }
}

impl SixelCacheEntry {
    pub fn rect(&self) -> (rect: Rectangle)
        ensures
            rect == self@.rect(),
    {
        Rectangle { start: self.pos, size: self.size }
    }
}

/// The views of a list of overlays.
pub open spec fn sixel_views(sixels: Seq<Sixel>) -> Seq<SixelView> {
    Seq::new(sixels.len(), |i: int| sixels[i]@)
}

/// The views of a list of cache entries.
pub open spec fn entry_views(entries: Seq<SixelCacheEntry>) -> Seq<EntryView> {
    Seq::new(entries.len(), |i: int| entries[i]@)
}

/// The cache entry at index `i`, if there is one.
pub open spec fn cached_at(cache: Seq<EntryView>, i: int) -> Option<EntryView> {
    if 0 <= i < cache.len() {
        Some(cache[i])
    } else {
        None
    }
}

/// Whether an overlay is decoded anew, given what the cache holds for it.
/// An overlay without pixels never is. One without an entry always is. One
/// with an entry is unless the entry has its status, or it is still being
/// parsed and has advanced by fewer than [`REFRESH_STRIDE`] pixel rows.
pub open spec fn needs_refresh(cached: Option<EntryView>, s: SixelView) -> bool {
    &&& s.width() != 0
    &&& s.height() != 0
    &&& match cached {
        None => true,
        Some(e) => e.status != s.status && !(s.status is Parsing && s.current_line() - e.old_line
            < 30),
    }
}

/// The entry that a refresh writes: the rows after those that the old entry
/// had are decoded into its buffer, or into a new one.
pub open spec fn refreshed(cached: Option<EntryView>, s: SixelView) -> EntryView {
    let from_line = match cached {
        Some(e) => e.old_line,
        None => 0,
    };
    let old_data = match cached {
        Some(e) => match e.data {
            Some(data) => data,
            None => Seq::empty(),
        },
        None => Seq::empty(),
    };
    EntryView {
        status: s.status,
        old_line: s.current_line(),
        data: Some(s.decoded(old_data, from_line)),
        pos: s.position,
        size: Size { width: s.width() as i32, height: s.height() as i32 },
        texture: None,
    }
}

/// The index at which the entry of overlay `i` is written.
pub open spec fn slot(cache: Seq<EntryView>, i: int) -> int {
    if i < cache.len() {
        i
    } else {
        cache.len() as int
    }
}

/// The cache with `entry` written for overlay `i`: in place of the entry at
/// `i`, or at the end where there is none.
pub open spec fn put(cache: Seq<EntryView>, i: int, entry: EntryView) -> Seq<EntryView> {
    if 0 <= i < cache.len() {
        cache.update(i, entry)
    } else {
        cache.push(entry)
    }
}

/// The textures that the entries hold, in order.
pub open spec fn all_textures(cache: Seq<EntryView>) -> Seq<TextureId>
    decreases cache.len(),
{
    if cache.len() == 0 {
        Seq::empty()
    } else {
        all_textures(cache.drop_last()) + cache.last().textures()
    }
}

/// Cache and overlays after pruning, with the textures to delete.
pub struct Pruned {
    pub cache: Seq<EntryView>,
    pub sixels: Seq<SixelView>,
    pub released: Seq<TextureId>,
}

/// Removes, among the first `n` entries, each one whose rectangle lies within
/// `cur`, together with the overlay at the same index. The textures of the
/// removed entries are listed from the highest index down.
pub open spec fn prune(
    cache: Seq<EntryView>,
    sixels: Seq<SixelView>,
    cur: Rectangle,
    n: int,
) -> Pruned
    decreases n,
{
    if n <= 0 {
        Pruned { cache, sixels, released: Seq::empty() }
    } else if cur.covers(cache[n - 1].rect()) {
        let rest = prune(cache.remove(n - 1), sixels.remove(n - 1), cur, n - 1);
        Pruned {
            cache: rest.cache,
            sixels: rest.sixels,
            released: cache[n - 1].textures() + rest.released,
        }
    } else {
        prune(cache, sixels, cur, n - 1)
    }
}

/// The outcome of one update of the cache.
pub struct UpdateView {
    pub cache: Seq<EntryView>,
    pub sixels: Seq<SixelView>,
    /// Some entry was refreshed.
    pub changed: bool,
    /// The index of the entry whose bytes are ready for upload.
    pub upload: Option<int>,
    /// The textures to delete.
    pub released: Seq<TextureId>,
}

/// The update from overlay `i` on. Overlays are taken in order. Each one
/// that needs it is refreshed; the texture of the entry it replaces is
/// released. The first refreshed overlay whose decoder has stopped ends the
/// update: its entry is marked for upload and the entries before it that it
/// hides are pruned.
pub open spec fn run(
    cache: Seq<EntryView>,
    sixels: Seq<SixelView>,
    i: int,
    changed: bool,
    released: Seq<TextureId>,
) -> UpdateView
    decreases sixels.len() - i,
{
    if i < 0 || i >= sixels.len() {
        UpdateView { cache, sixels, changed, upload: None, released }
    } else if !needs_refresh(cached_at(cache, i), sixels[i]) {
        run(cache, sixels, i + 1, changed, released)
    } else {
        let cached = cached_at(cache, i);
        let j = slot(cache, i);
        let next = put(cache, i, refreshed(cached, sixels[i]));
        let freed = released + match cached {
            Some(e) => e.textures(),
            None => Seq::empty(),
        };
        if sixels[i].status.terminal() {
            let pruned = prune(next, sixels, next[j].rect(), j);
            UpdateView {
                cache: pruned.cache,
                sixels: pruned.sixels,
                changed: true,
                upload: Some(j - (next.len() - pruned.cache.len())),
                released: freed + pruned.released,
            }
        } else {
            run(next, sixels, i + 1, true, freed)
        }
    }
}

/// One update of the cache against the overlays of the buffer. Without
/// overlays the cache is emptied and every texture released.
pub open spec fn updated(cache: Seq<EntryView>, sixels: Seq<SixelView>) -> UpdateView {
    if sixels.len() == 0 {
        UpdateView {
            cache: Seq::empty(),
            sixels,
            changed: false,
            upload: None,
            released: all_textures(cache),
        }
    } else {
        run(cache, sixels, 0, false, Seq::empty())
    }
}

/// No entry's rectangle contains that of an earlier entry.
pub open spec fn no_hidden_entry(cache: Seq<EntryView>) -> bool {
    forall|a: int, b: int|
        0 <= b < a < cache.len() ==> !(#[trigger] cache[a]).rect().covers((#[trigger] cache[b]).rect())
}

/// What the caller has to do after [`SixelCache::update_sixels`].
pub struct SixelUpdate {
    /// Some entry was refreshed: the view has to be drawn again.
    pub changed: bool,
    /// The index of the entry whose bytes are to be uploaded as a texture.
    pub upload: Option<usize>,
    /// The textures to delete.
    pub released: Vec<TextureId>,
}

/// The state that follows the overlays of a buffer from frame to frame.
pub struct SixelCache {
    entries: Vec<SixelCacheEntry>,
}

impl View for SixelCache {
    type V = Seq<EntryView>;

    closed spec fn view(&self) -> Seq<EntryView> {
        entry_views(self.entries@)
    }
}

impl SixelCache {
    pub fn new() -> (cache: Self)
        ensures
            cache@ == Seq::<EntryView>::empty(),
    {
        let cache = Self { entries: Vec::new() };
        assert(cache@ =~= Seq::<EntryView>::empty());
        cache
    }

    pub fn len(&self) -> (len: usize)
        ensures
            len == self@.len(),
    {
        self.entries.len()
    }

    pub fn entry(&self, index: usize) -> (entry: &SixelCacheEntry)
        requires
            index < self@.len(),
        ensures
            entry@ == self@[index as int],
    {
        &self.entries[index]
    }

    /// Records the texture that the bytes of entry `index` were uploaded to,
    /// and drops the bytes.
    pub fn attach_texture(&mut self, index: usize, texture: TextureId)
        requires
            index < old(self)@.len(),
        ensures
            final(self)@ == old(self)@.update(
                index as int,
                EntryView { data: None, texture: Some(texture), ..old(self)@[index as int] },
            ),
    {
        let mut entry = self.entries.remove(index);
        entry.data_opt = None;
        entry.texture_opt = Some(texture);
        self.entries.insert(index, entry);
        assert(self@ =~= old(self)@.update(
            index as int,
            EntryView { data: None, texture: Some(texture), ..old(self)@[index as int] },
        ));
    }

    /// Removes each entry before `j` that the entry at `j` hides, and the
    /// overlay at the same index with it. Returns the textures of the removed
    /// entries, which the caller deletes.
    ///
    /// Afterwards the entry that was at `j`, and those behind it, follow the
    /// kept entries unchanged, and no kept entry lies within its rectangle.
    pub fn clear_invisible_sixel_cache(&mut self, sixels: &mut Vec<Sixel>, j: usize) -> (released:
        Vec<TextureId>)
        requires
            j < old(self)@.len(),
            j <= old(sixels)@.len(),
        ensures
            ({
                let cur = old(self)@[j as int].rect();
                let pruned = prune(old(self)@, sixel_views(old(sixels)@), cur, j as int);
                let removed = old(self)@.len() - final(self)@.len();
                &&& final(self)@ == pruned.cache
                &&& sixel_views(final(sixels)@) == pruned.sixels
                &&& released@ == pruned.released
                &&& 0 <= removed <= j
                &&& final(sixels)@.len() == old(sixels)@.len() - removed
                &&& final(self)@.skip(j - removed) == old(self)@.skip(j as int)
                &&& forall|k: int|
                    0 <= k < j - removed ==> !cur.covers((#[trigger] final(self)@[k]).rect())
            }),
    {
        let mut released: Vec<TextureId> = Vec::new();
        let cur_rect = self.entries[j].rect();
        let ghost cache0 = self@;
        let ghost sixels0 = sixel_views(sixels@);
        let ghost goal = prune(cache0, sixels0, cur_rect, j as int);
        let mut n = j;
        while n > 0
            invariant
                n <= j,
                0 <= cache0.len() - self@.len() <= j - n,
                sixels0.len() - sixels@.len() == cache0.len() - self@.len(),
                j < cache0.len(),
                j <= sixels0.len(),
                goal.cache == prune(self@, sixel_views(sixels@), cur_rect, n as int).cache,
                goal.sixels == prune(self@, sixel_views(sixels@), cur_rect, n as int).sixels,
                goal.released == released@ + prune(
                    self@,
                    sixel_views(sixels@),
                    cur_rect,
                    n as int,
                ).released,
                self@.skip(j - (cache0.len() - self@.len())) == cache0.skip(j as int),
                forall|k: int|
                    n <= k < j - (cache0.len() - self@.len()) ==> !cur_rect.covers(
                        (#[trigger] self@[k]).rect(),
                    ),
            decreases n,
        {
            let i = n - 1;
            let ghost before = self@;
            let ghost sixels_before = sixel_views(sixels@);
            let ghost released_before = released@;
            let ghost removed = cache0.len() - before.len();
            if cur_rect.contains(self.entries[i].rect()) {
                let entry = self.entries.remove(i);
                if let Some(texture) = entry.texture_opt {
                    released.push(texture);
                }
                let _ = sixels.remove(i);
                proof {
                    assert(self@ =~= before.remove(i as int));
                    assert(sixel_views(sixels@) =~= sixels_before.remove(i as int));
                    assert(self@.skip(j - removed - 1) =~= before.skip(j - removed));
                    assert(released@ =~= released_before + before[i as int].textures());
                    let rest = prune(self@, sixel_views(sixels@), cur_rect, i as int);
                    assert(released@ + rest.released =~= released_before + (before[i as int].textures()
                        + rest.released));
                    assert forall|k: int| i <= k < j - removed - 1 implies !cur_rect.covers(
                        (#[trigger] self@[k]).rect(),
                    ) by {
                        assert(self@[k] == before[k + 1]);
                    }
                }
            }
            n = i;
        }
        released
    }

    /// Brings the cache up to date with the overlays of the buffer, once per
    /// frame. See [`updated`]: without overlays the cache is emptied;
    /// otherwise each overlay that needs it is decoded further, and the first
    /// one whose decoder has stopped is marked for upload and prunes the
    /// entries it hides, which ends the update.
    ///
    /// The caller deletes the released textures, uploads the bytes of the
    /// entry named by `upload` and hands its texture to
    /// [`SixelCache::attach_texture`].
    pub fn update_sixels(&mut self, sixels: &mut Vec<Sixel>) -> (update: SixelUpdate)
        requires
            forall|i: int| 0 <= i < old(sixels)@.len() ==> (#[trigger] old(sixels)@[i])@.fits(),
        ensures
            ({
                let expected = updated(old(self)@, sixel_views(old(sixels)@));
                &&& final(self)@ == expected.cache
                &&& sixel_views(final(sixels)@) == expected.sixels
                &&& update.changed == expected.changed
                &&& update.released@ == expected.released
                &&& match update.upload {
                    Some(index) => expected.upload == Some(index as int) && index < final(self)@.len(),
                    None => expected.upload is None,
                }
            }),
    {
        let mut released: Vec<TextureId> = Vec::new();
        let l = sixels.len();
        let ghost cache0 = self@;
        let ghost views = sixel_views(sixels@);
        if l == 0 {
            let mut k: usize = 0;
            while k < self.entries.len()
                invariant
                    k <= self.entries@.len(),
                    self@ == cache0,
                    released@ == all_textures(cache0.take(k as int)),
                decreases self.entries@.len() - k,
            {
                if let Some(texture) = self.entries[k].texture_opt {
                    released.push(texture);
                }
                proof {
                    assert(cache0.take(k + 1).drop_last() =~= cache0.take(k as int));
                }
                k += 1;
            }
            proof {
                assert(cache0.take(k as int) =~= cache0);
            }
            self.entries.clear();
            assert(self@ =~= Seq::<EntryView>::empty());
            return SixelUpdate { changed: false, upload: None, released };
        }
        let ghost goal = run(cache0, views, 0, false, Seq::empty());
        let mut res = false;
        let mut pending: Option<usize> = None;
        let mut i: usize = 0;
        while i < l && pending.is_none()
            invariant
                i <= l,
                l == sixels@.len(),
                views == sixel_views(sixels@),
                forall|k: int| 0 <= k < sixels@.len() ==> (#[trigger] sixels@[k])@.fits(),
                match pending {
                    None => goal == run(self@, views, i as int, res, released@),
                    Some(j) => {
                        &&& j < self@.len()
                        &&& j <= l
                        &&& ({
                            let pruned = prune(self@, views, self@[j as int].rect(), j as int);
                            goal == UpdateView {
                                cache: pruned.cache,
                                sixels: pruned.sixels,
                                changed: true,
                                upload: Some(j - (self@.len() - pruned.cache.len())),
                                released: released@ + pruned.released,
                            }
                        })
                    },
                },
                pending is Some ==> res,
            decreases l - i, if pending is None { 1int } else { 0int },
        {
            let ghost before = self@;
            let ghost released_before = released@;
            let sixel = &sixels[i];
            assert(sixel@ == views[i as int]);
            let w = sixel.width();
            let h = sixel.height();
            let mut refresh = w != 0 && h != 0;
            if refresh {
                proof {
                    lemma_fits_bounds(sixel@);
                }
                let current_line = sixel.current_line();
                if i < self.entries.len() {
                    let entry = &self.entries[i];
                    assert(entry@ == before[i as int]);
                    if entry.status == sixel.read_status {
                        refresh = false;
                    } else {
                        match sixel.read_status {
                            SixelStatus::Parsing(_) => {
                                if current_line <= entry.old_line || current_line - entry.old_line
                                    < REFRESH_STRIDE {
                                    refresh = false;
                                }
                            },
                            _ => {},
                        }
                    }
                }
                assert(refresh == needs_refresh(cached_at(before, i as int), sixel@));
                if refresh {
                    res = true;
                    let mut from_line: usize = 0;
                    let mut data: Vec<u8> = Vec::new();
                    let j = if i < self.entries.len() {
                        let mut entry = self.entries.remove(i);
                        if let Some(texture) = entry.texture_opt {
                            released.push(texture);
                        }
                        from_line = entry.old_line;
                        if let Some(old_data) = entry.data_opt {
                            data = old_data;
                        }
                        i
                    } else {
                        self.entries.len()
                    };
                    let status = sixel.read_status;
                    let decoded = sixel.decode_rows(data, from_line);
                    let new_entry = SixelCacheEntry {
                        status,
                        old_line: current_line,
                        data_opt: Some(decoded),
                        pos: sixel.position,
                        size: Size { width: w as i32, height: h as i32 },
                        texture_opt: None,
                    };
                    self.entries.insert(j, new_entry);
                    proof {
                        let cached = cached_at(before, i as int);
                        assert(new_entry@ == refreshed(cached, sixel@));
                        assert(self@ =~= put(before, i as int, new_entry@));
                        assert(j == slot(before, i as int));
                        assert(released@ =~= released_before + match cached {
                            Some(e) => e.textures(),
                            None => Seq::empty(),
                        });
                    }
                    if status.is_terminal() {
                        pending = Some(j);
                    }
                }
            }
            if pending.is_none() {
                i += 1;
            }
        }
        match pending {
            Some(j) => {
                let ghost before = self@;
                let ghost released_before = released@;
                let mut pruned = self.clear_invisible_sixel_cache(sixels, j);
                released.append(&mut pruned);
                let removed = l - sixels.len();
                assert(released@ =~= released_before + prune(
                    before,
                    views,
                    before[j as int].rect(),
                    j as int,
                ).released);
                SixelUpdate { changed: true, upload: Some(j - removed), released }
            },
            None => SixelUpdate { changed: res, upload: None, released },
        }
    }
}


/// The cells that an overlay occupies.
pub open spec fn sixel_rect(s: SixelView) -> Rectangle {
    Rectangle {
        start: s.position,
        size: Size { width: s.width() as i32, height: s.height() as i32 },
    }
}

/// Cache and overlays correspond index by index: each entry has the rectangle
/// of the overlay at its index, and each overlay without an entry has pixels.
pub open spec fn aligned(cache: Seq<EntryView>, sixels: Seq<SixelView>) -> bool {
    &&& cache.len() <= sixels.len()
    &&& forall|i: int| 0 <= i < cache.len() ==> (#[trigger] cache[i]).rect() == sixel_rect(sixels[i])
    &&& forall|i: int|
        cache.len() <= i < sixels.len() ==> (#[trigger] sixels[i]).width() != 0 && sixels[i].height()
            != 0
}

/// No overlay that is still being parsed contains an earlier overlay.
pub open spec fn parsing_hides_nothing(sixels: Seq<SixelView>) -> bool {
    forall|a: int, b: int|
        0 <= b < a < sixels.len() && !(#[trigger] sixels[a]).status.terminal() ==> !sixel_rect(
            sixels[a],
        ).covers(sixel_rect(#[trigger] sixels[b]))
}

/// Pruning before entry `at` leaves no hidden entry, where the only entries
/// that were hidden are among the first `n` and hidden by entry `at`.
proof fn lemma_prune_leaves_no_hidden(
    cache: Seq<EntryView>,
    sixels: Seq<SixelView>,
    at: int,
    n: int,
)
    requires
        0 <= n <= at < cache.len(),
        forall|a: int, b: int|
            0 <= b < a < cache.len() && !(a == at && b < n) ==> !(#[trigger] cache[a]).rect().covers(
                (#[trigger] cache[b]).rect(),
            ),
    ensures
        no_hidden_entry(prune(cache, sixels, cache[at].rect(), n).cache),
    decreases n,
{
    let cur = cache[at].rect();
    if n > 0 {
        if cur.covers(cache[n - 1].rect()) {
            let rest = cache.remove(n - 1);
            assert forall|a: int, b: int|
                0 <= b < a < rest.len() && !(a == at - 1 && b < n - 1) implies !(#[trigger] rest[a]).rect().covers(
                (#[trigger] rest[b]).rect(),
            ) by {
                let a0 = if a >= n - 1 {
                    a + 1
                } else {
                    a
                };
                let b0 = if b >= n - 1 {
                    b + 1
                } else {
                    b
                };
                assert(rest[a] == cache[a0]);
                assert(rest[b] == cache[b0]);
            }
            assert(rest[at - 1] == cache[at]);
            lemma_prune_leaves_no_hidden(rest, sixels.remove(n - 1), at - 1, n - 1);
        } else {
            lemma_prune_leaves_no_hidden(cache, sixels, at, n - 1);
        }
    }
}

/// The induction behind [`lemma_update_keeps_cache_pruned`].
proof fn lemma_run_keeps_pruned(
    cache: Seq<EntryView>,
    sixels: Seq<SixelView>,
    i: int,
    changed: bool,
    released: Seq<TextureId>,
)
    requires
        0 <= i <= cache.len(),
        aligned(cache, sixels),
        no_hidden_entry(cache),
        parsing_hides_nothing(sixels),
    ensures
        no_hidden_entry(run(cache, sixels, i, changed, released).cache),
    decreases sixels.len() - i,
{
    if i < sixels.len() {
        let cached = cached_at(cache, i);
        if !needs_refresh(cached, sixels[i]) {
            if i == cache.len() {
                assert(sixels[i].width() != 0);
            }
            lemma_run_keeps_pruned(cache, sixels, i + 1, changed, released);
        } else {
            let entry = refreshed(cached, sixels[i]);
            let next = put(cache, i, entry);
            let freed = released + match cached {
                Some(e) => e.textures(),
                None => Seq::empty(),
            };
            assert(entry.rect() == sixel_rect(sixels[i]));
            assert(next[i] == entry);
            assert forall|k: int| 0 <= k < next.len() implies (#[trigger] next[k]).rect()
                == sixel_rect(sixels[k]) by {
                if k != i {
                    assert(next[k] == cache[k]);
                }
            }
            assert forall|a: int, b: int|
                0 <= b < a < next.len() && !(a == i && b < i) implies !(#[trigger] next[a]).rect().covers(
                (#[trigger] next[b]).rect(),
            ) by {
                assert(a < cache.len());
                assert(next[a] == cache[a]);
                assert(next[b].rect() == cache[b].rect());
            }
            if sixels[i].status.terminal() {
                lemma_prune_leaves_no_hidden(next, sixels, i, i);
            } else {
                assert forall|a: int, b: int| 0 <= b < a < next.len() implies !(#[trigger] next[a]).rect().covers(
                    (#[trigger] next[b]).rect(),
                ) by {
                    if a == i && b < i {
                        assert(!sixel_rect(sixels[a]).covers(sixel_rect(sixels[b])));
                    }
                }
                assert(aligned(next, sixels)) by {
                    assert forall|k: int| next.len() <= k < sixels.len() implies (
                    #[trigger] sixels[k]).width() != 0 && sixels[k].height() != 0 by {
                        assert(cache.len() <= k);
                    }
                }
                lemma_run_keeps_pruned(next, sixels, i + 1, true, freed);
            }
        }
    }
}

/// After an update no cached entry's rectangle contains that of an earlier
/// entry, provided that this held before, that cache and overlays correspond
/// index by index, and that no overlay still being parsed contains an
/// earlier one. (An overlay prunes what it hides only when its decoder
/// stops.)
pub proof fn lemma_update_keeps_cache_pruned(cache: Seq<EntryView>, sixels: Seq<SixelView>)
    requires
        no_hidden_entry(cache),
        aligned(cache, sixels),
        parsing_hides_nothing(sixels),
    ensures
        no_hidden_entry(updated(cache, sixels).cache),
{
    if sixels.len() > 0 {
        lemma_run_keeps_pruned(cache, sixels, 0, false, Seq::empty());
    }
}


/// One overlay to draw in the second pass: its texture and the pixels of
/// the frame that it covers.
#[derive(Clone, Copy, Debug, PartialEq, Eq, Structural)]
pub struct OverlayDraw {
    pub texture: TextureId,
    /// Left edge in pixels of the frame.
    pub x: i64,
    /// Top edge in pixels of the frame.
    pub y: i64,
    pub width: i32,
    pub height: i32,
}

/// Where the second pass draws an entry: at the pixel of its cell, with the
/// extent of its bitmap. `first_line` is the first line of the frame.
pub open spec fn overlay_of(
    entry: EntryView,
    texture: TextureId,
    cell_w: int,
    cell_h: int,
    first_line: int,
) -> OverlayDraw {
    OverlayDraw {
        texture,
        x: (entry.pos.x * cell_w) as i64,
        y: ((entry.pos.y - first_line) * cell_h) as i64,
        width: entry.size.width,
        height: entry.size.height,
    }
}

/// The overlay covers a pixel of a frame of `frame_w` by `frame_h` pixels.
pub open spec fn on_frame(draw: OverlayDraw, frame_w: int, frame_h: int) -> bool {
    &&& draw.x < frame_w
    &&& draw.y < frame_h
    &&& draw.x + draw.width > 0
    &&& draw.y + draw.height > 0
}

/// The overlays to draw among the first `n` entries, in the order of the
/// cache: those that have a texture and cover a pixel of the frame. Drawn
/// in this order, a later overlay lies over an earlier one.
pub open spec fn overlays(
    cache: Seq<EntryView>,
    cell_w: int,
    cell_h: int,
    first_line: int,
    frame_w: int,
    frame_h: int,
    n: int,
) -> Seq<OverlayDraw>
    decreases n,
{
    if n <= 0 {
        Seq::empty()
    } else {
        let rest = overlays(cache, cell_w, cell_h, first_line, frame_w, frame_h, n - 1);
        match cache[n - 1].texture {
            Some(texture) => {
                let draw = overlay_of(cache[n - 1], texture, cell_w, cell_h, first_line);
                if on_frame(draw, frame_w, frame_h) {
                    rest.push(draw)
                } else {
                    rest
                }
            },
            None => rest,
        }
    }
}

impl SixelCache {
    /// The overlays that the second pass draws onto a frame of `frame_w` by
    /// `frame_h` pixels whose first line is `first_line`: see [`overlays`].
    pub fn overlay_draws(
        &self,
        cell_w: u16,
        cell_h: u16,
        first_line: i32,
        frame_w: u32,
        frame_h: u32,
    ) -> (draws: Vec<OverlayDraw>)
        ensures
            draws@ == overlays(
                self@,
                cell_w as int,
                cell_h as int,
                first_line as int,
                frame_w as int,
                frame_h as int,
                self@.len() as int,
            ),
    {
        let mut draws: Vec<OverlayDraw> = Vec::new();
        let mut i: usize = 0;
        while i < self.entries.len()
            invariant
                i <= self.entries@.len(),
                draws@ == overlays(
                    self@,
                    cell_w as int,
                    cell_h as int,
                    first_line as int,
                    frame_w as int,
                    frame_h as int,
                    i as int,
                ),
            decreases self.entries@.len() - i,
        {
            let entry = &self.entries[i];
            assert(entry@ == self@[i as int]);
            if let Some(texture) = entry.texture_opt {
                assert(-0x8000_0000 * 0x1_0000 <= entry.pos.x * cell_w <= 0x8000_0000 * 0x1_0000)
                    by (nonlinear_arith)
                    requires
                        -0x8000_0000 <= entry.pos.x <= 0x8000_0000,
                        0 <= cell_w <= 0x1_0000,
                ;
                let line: i64 = entry.pos.y as i64 - first_line as i64;
                assert(-0x1_0000_0000 * 0x1_0000 <= line * cell_h <= 0x1_0000_0000 * 0x1_0000)
                    by (nonlinear_arith)
                    requires
                        -0x1_0000_0000 <= line <= 0x1_0000_0000,
                        0 <= cell_h <= 0x1_0000,
                ;
                let draw = OverlayDraw {
                    texture,
                    x: entry.pos.x as i64 * cell_w as i64,
                    y: line * cell_h as i64,
                    width: entry.size.width,
                    height: entry.size.height,
                };
                if draw.x < frame_w as i64 && draw.y < frame_h as i64 && draw.x
                    + draw.width as i64 > 0 && draw.y + draw.height as i64 > 0 {
                    draws.push(draw);
                }
            }
            i += 1;
        }
        draws
    }
}


/// Every entry holds either its bytes or its texture, never both and never
/// neither.
pub open spec fn one_source(cache: Seq<EntryView>) -> bool {
    forall|i: int|
        0 <= i < cache.len() ==> ((#[trigger] cache[i]).data is Some) != (cache[i].texture is Some)
}

proof fn lemma_prune_keeps_one_source(
    cache: Seq<EntryView>,
    sixels: Seq<SixelView>,
    cur: Rectangle,
    n: int,
)
    requires
        0 <= n <= cache.len(),
        one_source(cache),
    ensures
        one_source(prune(cache, sixels, cur, n).cache),
    decreases n,
{
    if n > 0 {
        if cur.covers(cache[n - 1].rect()) {
            let rest = cache.remove(n - 1);
            assert forall|i: int| 0 <= i < rest.len() implies ((#[trigger] rest[i]).data is Some) != (
            rest[i].texture is Some) by {
                if i < n - 1 {
                    assert(rest[i] == cache[i]);
                } else {
                    assert(rest[i] == cache[i + 1]);
                }
            }
            lemma_prune_keeps_one_source(rest, sixels.remove(n - 1), cur, n - 1);
        } else {
            lemma_prune_keeps_one_source(cache, sixels, cur, n - 1);
        }
    }
}

proof fn lemma_run_keeps_one_source(
    cache: Seq<EntryView>,
    sixels: Seq<SixelView>,
    i: int,
    changed: bool,
    released: Seq<TextureId>,
)
    requires
        0 <= i,
        one_source(cache),
    ensures
        one_source(run(cache, sixels, i, changed, released).cache),
    decreases sixels.len() - i,
{
    if i < sixels.len() {
        let cached = cached_at(cache, i);
        if !needs_refresh(cached, sixels[i]) {
            lemma_run_keeps_one_source(cache, sixels, i + 1, changed, released);
        } else {
            let entry = refreshed(cached, sixels[i]);
            let next = put(cache, i, entry);
            let j = slot(cache, i);
            let freed = released + match cached {
                Some(e) => e.textures(),
                None => Seq::empty(),
            };
            assert forall|k: int| 0 <= k < next.len() implies ((#[trigger] next[k]).data is Some) != (
            next[k].texture is Some) by {
                if k != j {
                    assert(next[k] == cache[k]);
                }
            }
            if sixels[i].status.terminal() {
                lemma_prune_keeps_one_source(next, sixels, next[j].rect(), j);
            } else {
                lemma_run_keeps_one_source(next, sixels, i + 1, true, freed);
            }
        }
    }
}

/// An update keeps every entry with exactly one of its bytes and its
/// texture: a refreshed entry holds bytes and no texture.
pub proof fn lemma_update_keeps_one_source(cache: Seq<EntryView>, sixels: Seq<SixelView>)
    requires
        one_source(cache),
    ensures
        one_source(updated(cache, sixels).cache),
{
    if sixels.len() > 0 {
        lemma_run_keeps_one_source(cache, sixels, 0, false, Seq::empty());
    }
}

/// Attaching a texture keeps every entry with exactly one of its bytes and
/// its texture.
pub proof fn lemma_attach_keeps_one_source(cache: Seq<EntryView>, index: int, texture: TextureId)
    requires
        0 <= index < cache.len(),
        one_source(cache),
    ensures
        one_source(
            cache.update(index, EntryView { data: None, texture: Some(texture), ..cache[index] }),
        ),
{
}

proof fn lemma_prune_keeps_aligned(
    cache: Seq<EntryView>,
    sixels: Seq<SixelView>,
    cur: Rectangle,
    n: int,
)
    requires
        0 <= n <= cache.len(),
        aligned(cache, sixels),
    ensures
        aligned(prune(cache, sixels, cur, n).cache, prune(cache, sixels, cur, n).sixels),
    decreases n,
{
    if n > 0 {
        if cur.covers(cache[n - 1].rect()) {
            let rest = cache.remove(n - 1);
            let rest_sixels = sixels.remove(n - 1);
            assert forall|i: int| 0 <= i < rest.len() implies (#[trigger] rest[i]).rect()
                == sixel_rect(rest_sixels[i]) by {
                if i < n - 1 {
                    assert(rest[i] == cache[i]);
                    assert(rest_sixels[i] == sixels[i]);
                } else {
                    assert(rest[i] == cache[i + 1]);
                    assert(rest_sixels[i] == sixels[i + 1]);
                }
            }
            assert forall|i: int| rest.len() <= i < rest_sixels.len() implies (
            #[trigger] rest_sixels[i]).width() != 0 && rest_sixels[i].height() != 0 by {
                assert(rest_sixels[i] == sixels[i + 1]);
            }
            lemma_prune_keeps_aligned(rest, rest_sixels, cur, n - 1);
        } else {
            lemma_prune_keeps_aligned(cache, sixels, cur, n - 1);
        }
    }
}

proof fn lemma_run_keeps_aligned(
    cache: Seq<EntryView>,
    sixels: Seq<SixelView>,
    i: int,
    changed: bool,
    released: Seq<TextureId>,
)
    requires
        0 <= i <= cache.len(),
        aligned(cache, sixels),
    ensures
        aligned(
            run(cache, sixels, i, changed, released).cache,
            run(cache, sixels, i, changed, released).sixels,
        ),
    decreases sixels.len() - i,
{
    if i < sixels.len() {
        let cached = cached_at(cache, i);
        if !needs_refresh(cached, sixels[i]) {
            if i == cache.len() {
                assert(sixels[i].width() != 0);
            }
            lemma_run_keeps_aligned(cache, sixels, i + 1, changed, released);
        } else {
            let entry = refreshed(cached, sixels[i]);
            let next = put(cache, i, entry);
            let freed = released + match cached {
                Some(e) => e.textures(),
                None => Seq::empty(),
            };
            assert(entry.rect() == sixel_rect(sixels[i]));
            assert(next[i] == entry);
            assert forall|k: int| 0 <= k < next.len() implies (#[trigger] next[k]).rect()
                == sixel_rect(sixels[k]) by {
                if k != i {
                    assert(next[k] == cache[k]);
                }
            }
            assert forall|k: int| next.len() <= k < sixels.len() implies (
            #[trigger] sixels[k]).width() != 0 && sixels[k].height() != 0 by {
                assert(cache.len() <= k);
            }
            if sixels[i].status.terminal() {
                lemma_prune_keeps_aligned(next, sixels, next[i].rect(), i);
            } else {
                lemma_run_keeps_aligned(next, sixels, i + 1, true, freed);
            }
        }
    }
}

/// An update keeps cache and overlays in correspondence, index by index.
pub proof fn lemma_update_keeps_aligned(cache: Seq<EntryView>, sixels: Seq<SixelView>)
    requires
        aligned(cache, sixels),
    ensures
        aligned(updated(cache, sixels).cache, updated(cache, sixels).sixels),
{
    if sixels.len() > 0 {
        lemma_run_keeps_aligned(cache, sixels, 0, false, Seq::empty());
    }
}

} // verus!
