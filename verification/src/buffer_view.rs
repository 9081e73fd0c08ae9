//! The view of one buffer: its blink clocks, its sixel cache, its selection
//! and the flags that say which textures have to be built again.

use crate::blink::{Blink, CARET_BLINK_RATE, CHARACTER_BLINK_RATE};
use crate::buffer::Buffer;
use crate::geometry::Rectangle;
use crate::selection::{selection_text, FinePoint, GlyphTable, Selection};
use crate::sixel::{
    entry_views, prune, sixel_views, updated, EntryView, SixelCache, SixelUpdate, TextureId,
};
use vstd::prelude::*;

verus! {

/// What a frame has to do before it draws.
#[derive(Clone, Copy, Debug, PartialEq, Eq, Structural)]
pub struct FramePlan {
    /// The passes have to run: something changed or a blink phase flipped.
    pub redraw: bool,
    /// The cell texture has to be built again.
    pub upload_buffer: bool,
    /// The palette texture has to be built again.
    pub upload_palette: bool,
    /// The font texture has to be built again.
    pub upload_font: bool,
}

/// The state of the view of one buffer.
pub struct BufferView {
    pub buf: Buffer,
    pub sixel_cache: SixelCache,
    pub caret_blink: Blink,
    pub character_blink: Blink,
    /// The scale in thousandths.
    pub scale: u64,
    pub scroll_back_line: i32,
    pub button_pressed: bool,
    pub selection_opt: Option<Selection>,
    pub redraw_view: bool,
    pub redraw_palette: bool,
    /// Number of colours of the palette texture.
    pub colors: usize,
    pub redraw_font: bool,
    /// Number of fonts of the font texture.
    pub fonts: usize,
}

impl BufferView {
    /// A view of `buf` at scale 1 with both blink phases off, without
    /// selection, whose textures are taken as built.
    pub fn new(buf: Buffer) -> (view: Self)
        ensures
            view.buf == buf,
            view.sixel_cache@ == Seq::<EntryView>::empty(),
            !view.caret_blink.on(),
            view.caret_blink.last_tick() == 0,
            view.caret_blink.period() == CARET_BLINK_RATE,
            !view.character_blink.on(),
            view.character_blink.last_tick() == 0,
            view.character_blink.period() == CHARACTER_BLINK_RATE,
            view.scale == 1000,
            view.scroll_back_line == 0,
            !view.button_pressed,
            view.selection_opt is None,
            !view.redraw_view,
            !view.redraw_palette,
            !view.redraw_font,
            view.colors == buf.palette.colors@.len(),
            view.fonts == buf.fonts@.len(),
    {
        let colors = buf.palette.colors.len();
        let fonts = buf.fonts.len();
        Self {
            buf,
            sixel_cache: SixelCache::new(),
            caret_blink: Blink::new(CARET_BLINK_RATE),
            character_blink: Blink::new(CHARACTER_BLINK_RATE),
            scale: 1000,
            scroll_back_line: 0,
            button_pressed: false,
            selection_opt: None,
            redraw_view: false,
            redraw_palette: false,
            redraw_font: false,
            colors,
            fonts,
        }
    }

    /// Marks the cells as changed.
    pub fn redraw_view(&mut self)
        ensures
            final(self).redraw_view,
            *final(self) == (BufferView { redraw_view: true, ..*old(self) }),
    {
        self.redraw_view = true;
    }

    /// Marks the palette as changed.
    pub fn redraw_palette(&mut self)
        ensures
            *final(self) == (BufferView { redraw_palette: true, ..*old(self) }),
    {
        self.redraw_palette = true;
    }

    /// Marks the fonts as changed.
    pub fn redraw_font(&mut self)
        ensures
            *final(self) == (BufferView { redraw_font: true, ..*old(self) }),
    {
        self.redraw_font = true;
    }

    /// Shows another buffer: every texture has to be built again, and the
    /// selection ends.
    pub fn set_buffer(&mut self, buf: Buffer)
        ensures
            *final(self) == (BufferView {
                buf,
                redraw_view: true,
                redraw_palette: true,
                redraw_font: true,
                selection_opt: None,
                ..*old(self)
            }),
    {
        self.buf = buf;
        self.redraw_view = true;
        self.redraw_palette = true;
        self.redraw_font = true;
        self.selection_opt = None;
    }

    /// Begins a frame at `now_ms`: advances both blink clocks and says
    /// which textures have to be built again. A texture is built again
    /// where its flag is set, and the palette and font textures also where
    /// the number of colours or fonts has changed. The passes run where a
    /// flag was set or a blink phase flipped. Afterwards no flag is set.
    pub fn begin_frame(&mut self, now_ms: u128) -> (plan: FramePlan)
        requires
            now_ms >= old(self).caret_blink.last_tick(),
            now_ms >= old(self).character_blink.last_tick(),
        ensures
            plan.upload_buffer == old(self).redraw_view,
            plan.upload_palette == (old(self).redraw_palette || old(self).colors != old(self).buf.palette.colors@.len()),
            plan.upload_font == (old(self).redraw_font || old(self).fonts != old(self).buf.fonts@.len()),
            plan.redraw == (plan.upload_buffer || plan.upload_palette || plan.upload_font || old(self).caret_blink.flips_at(now_ms) || old(self).character_blink.flips_at(now_ms)),
            !final(self).redraw_view,
            !final(self).redraw_palette,
            !final(self).redraw_font,
            final(self).colors == old(self).buf.palette.colors@.len(),
            final(self).fonts == old(self).buf.fonts@.len(),
            final(self).buf == old(self).buf,
            final(self).sixel_cache == old(self).sixel_cache,
            final(self).selection_opt == old(self).selection_opt,
            final(self).scale == old(self).scale,
            final(self).scroll_back_line == old(self).scroll_back_line,
            final(self).button_pressed == old(self).button_pressed,
            final(self).caret_blink.period() == old(self).caret_blink.period(),
            final(self).character_blink.period() == old(self).character_blink.period(),
            final(self).caret_blink.on() == (old(self).caret_blink.on() != old(self).caret_blink.flips_at(now_ms)),
            final(self).character_blink.on() == (old(self).character_blink.on() != old(self).character_blink.flips_at(now_ms)),
            final(self).caret_blink.last_tick() == if old(self).caret_blink.flips_at(now_ms) {
                now_ms
            } else {
                old(self).caret_blink.last_tick()
            },
            final(self).character_blink.last_tick() == if old(self).character_blink.flips_at(
                now_ms,
            ) {
                now_ms
            } else {
                old(self).character_blink.last_tick()
            },
    {
        let caret_flipped = self.caret_blink.update(now_ms);
        let character_flipped = self.character_blink.update(now_ms);
        let upload_buffer = self.redraw_view;
        let upload_palette = self.redraw_palette || self.colors != self.buf.palette.colors.len();
        let upload_font = self.redraw_font || self.fonts != self.buf.fonts.len();
        self.redraw_view = false;
        self.redraw_palette = false;
        self.redraw_font = false;
        self.colors = self.buf.palette.colors.len();
        self.fonts = self.buf.fonts.len();
        FramePlan {
            redraw: upload_buffer || upload_palette || upload_font || caret_flipped
                || character_flipped,
            upload_buffer,
            upload_palette,
            upload_font,
        }
    }

    /// Whether the pointer selects text rather than grabs the view: it does
    /// while a selection is being dragged, with the alternate or the shift
    /// modifier, and where nothing can be scrolled.
    pub fn pointer_selects(&self, alt: bool, shift: bool, range: u64) -> (selects: bool)
        ensures
            selects == (self.button_pressed || alt || shift || range == 0),
    {
        self.button_pressed || alt || shift || range == 0
    }

    /// The pointer went down at `at`, or outside the drawn buffer where
    /// `at` is `None`. Inside, a selection begins; the alternate modifier
    /// makes it a block.
    pub fn pointer_pressed(&mut self, at: Option<FinePoint>, alt: bool)
        ensures
            *final(self) == (match at {
                Some(pos) => BufferView {
                    button_pressed: true,
                    selection_opt: final(self).selection_opt,
                    ..*old(self)
                },
                None => *old(self),
            }),
            at matches Some(pos) ==> final(self).selection_opt matches Some(s) && s.wf() && s.anchor
                == pos && s.lead == pos && s.block_selection == alt && !s.locked,
    {
        if let Some(pos) = at {
            self.button_pressed = true;
            self.selection_opt = Some(Selection::pointer_down(pos, alt));
        }
    }

    /// The pointer moved to `pos` while its button is held: the lead of an
    /// unlocked selection follows.
    pub fn pointer_dragged(&mut self, pos: FinePoint, alt: bool)
        requires
            old(self).selection_opt matches Some(s) ==> s.wf(),
        ensures
            final(self).selection_opt == (match old(self).selection_opt {
                Some(s) => if old(self).button_pressed && !s.locked {
                    Some(
                        Selection { lead: pos, lead_pos: pos.cell(), block_selection: alt, ..s },
                    )
                } else {
                    Some(s)
                },
                None => None,
            }),
            *final(self) == (BufferView { selection_opt: final(self).selection_opt, ..*old(self) }),
    {
        if self.button_pressed {
            if let Some(selection) = self.selection_opt {
                let mut moved = selection;
                moved.pointer_moved(pos, alt);
                self.selection_opt = Some(moved);
            }
        }
    }

    /// The pointer's button went up: the selection is locked.
    pub fn pointer_released(&mut self)
        ensures
            final(self).selection_opt == (match old(self).selection_opt {
                Some(s) => Some(Selection { locked: true, ..s }),
                None => None,
            }),
            *final(self) == (BufferView {
                button_pressed: false,
                selection_opt: final(self).selection_opt,
                ..*old(self)
            }),
    {
        self.button_pressed = false;
        if let Some(selection) = self.selection_opt {
            let mut locked = selection;
            locked.pointer_released();
            self.selection_opt = Some(locked);
        }
    }

    /// Ends the selection, as the escape key does.
    pub fn clear_selection(&mut self)
        ensures
            *final(self) == (BufferView { selection_opt: None, ..*old(self) }),
    {
        self.selection_opt = None;
    }

    /// Copies the selected text and ends the selection. Without a
    /// selection there is no text.
    pub fn copy(&mut self, table: &GlyphTable) -> (text: Option<String>)
        requires
            old(self).buf.wf(),
            table.wf(),
        ensures
            *final(self) == (BufferView { selection_opt: None, ..*old(self) }),
            text is None <==> old(self).selection_opt is None,
            text matches Some(t) ==> t@ == selection_text(
                old(self).buf,
                table.chars@,
                old(self).selection_opt->0,
            ),
    {
        let text = match &self.selection_opt {
            Some(selection) => Some(crate::selection::copy_text(&self.buf, selection, table)),
            None => None,
        };
        self.selection_opt = None;
        text
    }

    /// Brings the sixel cache up to date with the overlays of the buffer:
    /// see [`SixelCache::update_sixels`].
    pub fn update_sixels(&mut self) -> (update: SixelUpdate)
        requires
            forall|i: int|
                0 <= i < old(self).buf.sixels@.len() ==> (#[trigger] old(self).buf.sixels@[i])@.fits(),
        ensures
            ({
                let expected = updated(old(self).sixel_cache@, sixel_views(old(self).buf.sixels@));
                &&& final(self).sixel_cache@ == expected.cache
                &&& sixel_views(final(self).buf.sixels@) == expected.sixels
                &&& update.changed == expected.changed
                &&& update.released@ == expected.released
                &&& match update.upload {
                    Some(index) => expected.upload == Some(index as int) && index < final(self).sixel_cache@.len(),
                    None => expected.upload is None,
                }
            }),
    {
        self.sixel_cache.update_sixels(&mut self.buf.sixels)
    }

    /// Removes the cache entries before `j` that entry `j` hides, with
    /// their overlays: see [`SixelCache::clear_invisible_sixel_cache`].
    pub fn clear_invisible_sixel_cache(&mut self, j: usize) -> (released: Vec<TextureId>)
        requires
            j < old(self).sixel_cache@.len(),
            j <= old(self).buf.sixels@.len(),
        ensures
            ({
                let cur = old(self).sixel_cache@[j as int].rect();
                let pruned = prune(
                    old(self).sixel_cache@,
                    sixel_views(old(self).buf.sixels@),
                    cur,
                    j as int,
                );
                &&& final(self).sixel_cache@ == pruned.cache
                &&& sixel_views(final(self).buf.sixels@) == pruned.sixels
                &&& released@ == pruned.released
                &&& forall|k: int|
                    0 <= k < j - (old(self).sixel_cache@.len() - final(self).sixel_cache@.len())
                        ==> !cur.covers((#[trigger] final(self).sixel_cache@[k]).rect())
            }),
    {
        self.sixel_cache.clear_invisible_sixel_cache(&mut self.buf.sixels, j)
    }
}

} // verus!
