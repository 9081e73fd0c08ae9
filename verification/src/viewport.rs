//! The viewport: how the buffer is scaled into a target rectangle, how a
//! scroll offset maps to lines, and how autoscroll advances it.
//!
//! Lengths on screen are whole pixels; cell sizes and scroll offsets are
//! thousandths of a pixel, so that a speed in pixels per second advances an
//! offset by exactly that many thousandths per millisecond.

use crate::color::Color;
use vstd::prelude::*;

verus! {

/// Thousandths in one pixel.
pub const MILLI: u64 = 1000;

/// The vertical stretch that the aspect-ratio flag asks for, in hundredths.
pub const ASPECT_STRETCH_PERCENT: u64 = 135;

/// How the frame is sampled when it is scaled to the screen.
#[derive(Clone, Copy, Debug, PartialEq, Eq, Structural)]
pub enum ScalingFilter {
    Nearest,
    Linear,
}

/// The effect applied after scaling.
#[derive(Clone, Copy, Debug, PartialEq, Eq, Structural)]
pub enum PostEffect {
    NoEffect,
    Crt,
    Monochrome(Color),
}

/// The three autoscroll speeds.
#[derive(Clone, Copy, Debug, PartialEq, Eq, Structural)]
pub enum ScrollSpeed {
    Slow,
    Medium,
    Fast,
}

impl ScrollSpeed {
    /// The index of the speed: 0, 1 or 2.
    pub open spec fn spec_index(self) -> int {
        match self {
            ScrollSpeed::Slow => 0,
            ScrollSpeed::Medium => 1,
            ScrollSpeed::Fast => 2,
        }
    }

    pub fn index(self) -> (index: usize)
        ensures
            index == self.spec_index(),
            index < 3,
    {
        match self {
            ScrollSpeed::Slow => 0,
            ScrollSpeed::Medium => 1,
            ScrollSpeed::Fast => 2,
        }
    }
}

/// The options of the viewer, handed to it when it is built.
#[derive(Clone, Copy, Debug, PartialEq, Eq, Structural)]
pub struct Options {
    pub auto_scroll: bool,
    pub scroll_speed: ScrollSpeed,
    pub default_filter: ScalingFilter,
    pub post_effect: PostEffect,
}

impl Default for Options {
    /// Autoscroll at medium speed, sharp pixels, no effect.
    fn default() -> (options: Self)
        ensures
            options == (Options {
                auto_scroll: true,
                scroll_speed: ScrollSpeed::Medium,
                default_filter: ScalingFilter::Nearest,
                post_effect: PostEffect::NoEffect,
            }),
    {
        Options {
            auto_scroll: true,
            scroll_speed: ScrollSpeed::Medium,
            default_filter: ScalingFilter::Nearest,
            post_effect: PostEffect::NoEffect,
        }
    }
}

/// Where and how large the buffer is drawn inside a target rectangle.
#[derive(Clone, Copy, Debug, PartialEq, Eq, Structural)]
pub struct Layout {
    /// The scale factor in thousandths, before the vertical stretch.
    pub scale_milli: u64,
    /// Width of a cell on screen in thousandths of a pixel.
    pub cell_width: u64,
    /// Height of a cell on screen in thousandths of a pixel.
    pub cell_height: u64,
    /// Left edge of the drawn buffer, relative to the target.
    pub left: i64,
    /// Top edge of the drawn buffer, relative to the target.
    pub top: i64,
    /// Width of the drawn buffer in pixels.
    pub width: u64,
    /// Height of the drawn buffer in pixels.
    pub height: u64,
}

/// The smaller of two numbers.
pub open spec fn min_of(a: int, b: int) -> int {
    if a <= b {
        a
    } else {
        b
    }
}

/// The largest scale, in thousandths, at which `columns` by `lines` cells of
/// `cell_w` by `cell_h` pixels fit into `target_w` by `target_h` pixels.
pub open spec fn fit_scale(
    target_w: int,
    target_h: int,
    cell_w: int,
    cell_h: int,
    columns: int,
    lines: int,
) -> int {
    min_of(target_w * 1000 / (cell_w * columns), target_h * 1000 / (cell_h * lines))
}

/// The height of a cell on screen in thousandths of a pixel: the scaled
/// height, stretched by 1.35 where the aspect-ratio flag is set.
pub open spec fn scaled_cell_height(cell_h: int, scale_milli: int, use_aspect_ratio: bool) -> int {
    if use_aspect_ratio {
        cell_h * scale_milli * 135 / 100
    } else {
        cell_h * scale_milli
    }
}

/// The offset at which `extent` pixels are centred in `target` pixels, half
/// pixels dropped. It is negative where the extent is the larger.
pub open spec fn centred(target: int, extent: int) -> int {
    if extent <= target {
        (target - extent) / 2
    } else {
        -((extent - target) / 2)
    }
}

/// The layout of a buffer in a target, as [`layout`] computes it.
pub open spec fn layout_of(
    target_w: int,
    target_h: int,
    cell_w: int,
    cell_h: int,
    columns: int,
    lines: int,
    use_aspect_ratio: bool,
) -> Layout {
    let scale = fit_scale(target_w, target_h, cell_w, cell_h, columns, lines);
    let cell_width = cell_w * scale;
    let cell_height = scaled_cell_height(cell_h, scale, use_aspect_ratio);
    let width = cell_width * columns / 1000;
    let height = cell_height * lines / 1000;
    Layout {
        scale_milli: scale as u64,
        cell_width: cell_width as u64,
        cell_height: cell_height as u64,
        left: centred(target_w, width) as i64,
        top: centred(target_h, height) as i64,
        width: width as u64,
        height: height as u64,
    }
}

/// Scaling by the fitting factor keeps the buffer within the target's
/// width, and within its height before the stretch.
pub proof fn lemma_fit_bounds(
    target_w: int,
    target_h: int,
    cell_w: int,
    cell_h: int,
    columns: int,
    lines: int,
)
    requires
        0 <= target_w,
        0 <= target_h,
        0 < cell_w,
        0 < cell_h,
        0 < columns,
        0 < lines,
    ensures
        0 <= fit_scale(target_w, target_h, cell_w, cell_h, columns, lines),
        0 <= cell_w * fit_scale(target_w, target_h, cell_w, cell_h, columns, lines),
        cell_w * fit_scale(target_w, target_h, cell_w, cell_h, columns, lines) * columns
            <= target_w * 1000,
        0 <= cell_h * fit_scale(target_w, target_h, cell_w, cell_h, columns, lines),
        cell_h * fit_scale(target_w, target_h, cell_w, cell_h, columns, lines) * lines <= target_h
            * 1000,
        cell_w * fit_scale(target_w, target_h, cell_w, cell_h, columns, lines) <= target_w * 1000,
        cell_h * fit_scale(target_w, target_h, cell_w, cell_h, columns, lines) <= target_h * 1000,
{
    let s = fit_scale(target_w, target_h, cell_w, cell_h, columns, lines);
    let dw = cell_w * columns;
    let dh = cell_h * lines;
    assert(dw > 0 && dh > 0 && dw >= cell_w && dh >= cell_h) by (nonlinear_arith)
        requires
            0 < cell_w,
            0 < cell_h,
            0 < columns,
            0 < lines,
            dw == cell_w * columns,
            dh == cell_h * lines,
    ;
    let qw = target_w * 1000 / dw;
    let qh = target_h * 1000 / dh;
    vstd::arithmetic::div_mod::lemma_fundamental_div_mod(target_w * 1000, dw);
    vstd::arithmetic::div_mod::lemma_fundamental_div_mod(target_h * 1000, dh);
    vstd::arithmetic::div_mod::lemma_mod_bound(target_w * 1000, dw);
    vstd::arithmetic::div_mod::lemma_mod_bound(target_h * 1000, dh);
    vstd::arithmetic::div_mod::lemma_div_pos_is_pos(target_w * 1000, dw);
    vstd::arithmetic::div_mod::lemma_div_pos_is_pos(target_h * 1000, dh);
    assert(dw * qw <= target_w * 1000);
    assert(dh * qh <= target_h * 1000);
    assert(0 <= s <= qw && s <= qh);
    assert(cell_w * s * columns <= target_w * 1000 && 0 <= cell_w * s && cell_w * s <= target_w
        * 1000) by (nonlinear_arith)
        requires
            0 <= s <= qw,
            dw * qw <= target_w * 1000,
            dw == cell_w * columns,
            0 < cell_w,
            0 < columns,
    ;
    assert(cell_h * s * lines <= target_h * 1000 && 0 <= cell_h * s && cell_h * s <= target_h
        * 1000) by (nonlinear_arith)
        requires
            0 <= s <= qh,
            dh * qh <= target_h * 1000,
            dh == cell_h * lines,
            0 < cell_h,
            0 < lines,
    ;
}

/// With the aspect-ratio flag the height of a cell on screen is 1.35 times
/// the height without it, to within a thousandth of a pixel.
pub proof fn lemma_aspect_ratio_stretch(cell_h: int, scale_milli: int)
    requires
        0 <= cell_h,
        0 <= scale_milli,
    ensures
        ({
            let plain = scaled_cell_height(cell_h, scale_milli, false);
            let stretched = scaled_cell_height(cell_h, scale_milli, true);
            &&& 135 * plain - 100 < 100 * stretched <= 135 * plain
            &&& plain <= stretched
        }),
{
    let plain = cell_h * scale_milli;
    assert(0 <= plain) by (nonlinear_arith)
        requires
            0 <= cell_h,
            0 <= scale_milli,
            plain == cell_h * scale_milli,
    ;
}

fn centre(target: u64, extent: u64) -> (offset: i64)
    requires
        target <= i64::MAX,
        extent <= i64::MAX,
    ensures
        offset == centred(target as int, extent as int),
{
    if extent <= target {
        ((target - extent) / 2) as i64
    } else {
        -(((extent - target) / 2) as i64)
    }
}

/// Computes where a buffer of `columns` by `lines` cells is drawn in a
/// target of `target_w` by `target_h` pixels: at the largest scale that
/// fits, centred. `None` where the buffer or a cell has no extent.
pub fn layout(
    target_w: u32,
    target_h: u32,
    cell_w: u32,
    cell_h: u32,
    columns: u32,
    lines: u32,
    use_aspect_ratio: bool,
) -> (result: Option<Layout>)
    ensures
        result is None <==> (cell_w == 0 || cell_h == 0 || columns == 0 || lines == 0),
        result matches Some(l) ==> l == layout_of(
            target_w as int,
            target_h as int,
            cell_w as int,
            cell_h as int,
            columns as int,
            lines as int,
            use_aspect_ratio,
        ),
{
    if cell_w == 0 || cell_h == 0 || columns == 0 || lines == 0 {
        return None;
    }
    proof {
        lemma_fit_bounds(
            target_w as int,
            target_h as int,
            cell_w as int,
            cell_h as int,
            columns as int,
            lines as int,
        );
    }
    let ghost s = fit_scale(
        target_w as int,
        target_h as int,
        cell_w as int,
        cell_h as int,
        columns as int,
        lines as int,
    );
    assert(0 < cell_w * columns <= u64::MAX && 0 < cell_h * lines <= u64::MAX)
        by (nonlinear_arith)
        requires
            0 < cell_w <= u32::MAX,
            0 < cell_h <= u32::MAX,
            0 < columns <= u32::MAX,
            0 < lines <= u32::MAX,
    ;
    let dw: u64 = cell_w as u64 * columns as u64;
    let dh: u64 = cell_h as u64 * lines as u64;
    let fit_w: u64 = target_w as u64 * MILLI / dw;
    let fit_h: u64 = target_h as u64 * MILLI / dh;
    let scale: u64 = if fit_w <= fit_h {
        fit_w
    } else {
        fit_h
    };
    assert(scale == s);
    let cell_width: u64 = cell_w as u64 * scale;
    let plain_height: u64 = cell_h as u64 * scale;
    let cell_height: u64 = if use_aspect_ratio {
        plain_height * ASPECT_STRETCH_PERCENT / 100
    } else {
        plain_height
    };
    assert(cell_height == scaled_cell_height(cell_h as int, s, use_aspect_ratio));
    assert(cell_width * columns <= target_w * 1000);
    assert(cell_height * lines <= 135 * (target_h * 1000)) by (nonlinear_arith)
        requires
            cell_height <= plain_height * 135,
            plain_height * lines <= target_h * 1000,
            0 <= lines,
    ;
    let width: u64 = cell_width * columns as u64 / MILLI;
    let height: u64 = cell_height * lines as u64 / MILLI;
    let left: i64 = centre(target_w as u64, width);
    let top: i64 = centre(target_h as u64, height);
    Some(Layout { scale_milli: scale, cell_width, cell_height, left, top, width, height })
}


/// Number of autoscroll speeds.
pub const SCROLL_SPEEDS: usize = 3;

/// The autoscroll speed with the given index in pixels per second: slow,
/// medium, fast.
pub open spec fn speed_of(index: int) -> int {
    if index == 0 {
        80
    } else if index == 1 {
        160
    } else {
        320
    }
}

pub fn scroll_speed(index: usize) -> (speed: u64)
    requires
        index < SCROLL_SPEEDS,
    ensures
        speed == speed_of(index as int),
{
    if index == 0 {
        80
    } else if index == 1 {
        160
    } else {
        320
    }
}

/// The speed that follows `index` when the user cycles through the speeds.
pub fn next_scroll_speed(index: usize) -> (next: usize)
    ensures
        next == (index + 1) % 3,
        next < SCROLL_SPEEDS,
{
    if index % 3 == 2 {
        0
    } else {
        index % 3 + 1
    }
}

/// The scrollable distance in thousandths of a pixel: the height on screen
/// of the lines above the visible ones.
pub open spec fn scroll_range(cell_height: int, lines: int, real_lines: int) -> int {
    if real_lines > lines {
        cell_height * (real_lines - lines)
    } else {
        0
    }
}

pub fn total_scrollable(cell_height: u64, lines: u32, real_lines: u32) -> (range: u64)
    requires
        scroll_range(cell_height as int, lines as int, real_lines as int) <= u64::MAX,
    ensures
        range == scroll_range(cell_height as int, lines as int, real_lines as int),
{
    if real_lines > lines {
        cell_height * ((real_lines - lines) as u64)
    } else {
        0
    }
}

/// A scrollbar is shown only where there is scrollback.
pub fn has_scrollbar(lines: u32, real_lines: u32) -> (shown: bool)
    ensures
        shown == (real_lines > lines),
{
    real_lines > lines
}

/// Without scrollback nothing can be scrolled; with scrollback and cells
/// of some height something can.
pub proof fn lemma_scroll_range_positive(cell_height: int, lines: int, real_lines: int)
    requires
        cell_height > 0,
    ensures
        scroll_range(cell_height, lines, real_lines) > 0 <==> real_lines > lines,
{
    if real_lines > lines {
        assert(cell_height * (real_lines - lines) > 0) by (nonlinear_arith)
            requires
                cell_height > 0,
                real_lines - lines > 0,
        ;
    }
}

/// The first visible line and the offset into it, for a scroll offset and a
/// cell height in thousandths of a pixel.
pub fn first_visible_line(scroll: u64, cell_height: u64) -> (place: (u64, u64))
    requires
        cell_height > 0,
    ensures
        place.0 == scroll / cell_height,
        place.1 == scroll % cell_height,
        place.0 * cell_height + place.1 == scroll,
        place.1 < cell_height,
{
    proof {
        vstd::arithmetic::div_mod::lemma_fundamental_div_mod(scroll as int, cell_height as int);
        assert((scroll / cell_height) * cell_height == cell_height * (scroll / cell_height))
            by (nonlinear_arith);
    }
    (scroll / cell_height, scroll % cell_height)
}

/// The scroll offset and the autoscroll latch after a frame.
pub struct ScrollState {
    /// The offset in thousandths of a pixel.
    pub offset: u64,
    /// Autoscroll is running.
    pub in_scroll: bool,
}

/// One frame of autoscroll without user input, `dt_ms` milliseconds after
/// the last. While autoscroll runs and the offset is short of the range, the
/// offset advances by speed times elapsed time. Once the offset covers the
/// range, autoscroll latches off and the offset stays.
pub open spec fn autoscrolled(
    offset: int,
    in_scroll: bool,
    speed_index: int,
    dt_ms: int,
    range: int,
) -> (int, bool) {
    if in_scroll && offset < range {
        (offset + speed_of(speed_index) * dt_ms, offset + speed_of(speed_index) * dt_ms < range)
    } else {
        (offset, false)
    }
}

pub fn autoscroll(state: ScrollState, speed_index: usize, dt_ms: u32, range: u64) -> (next:
    ScrollState)
    requires
        speed_index < SCROLL_SPEEDS,
        state.offset + 320 * dt_ms <= u64::MAX,
    ensures
        (next.offset as int, next.in_scroll) == autoscrolled(
            state.offset as int,
            state.in_scroll,
            speed_index as int,
            dt_ms as int,
            range as int,
        ),
        state.in_scroll && state.offset < range ==> next.offset == state.offset + speed_of(
            speed_index as int,
        ) * dt_ms,
        range == 0 ==> !next.in_scroll && next.offset == state.offset,
{
    if state.in_scroll && state.offset < range {
        let speed = scroll_speed(speed_index);
        assert(speed * dt_ms <= 320 * dt_ms) by (nonlinear_arith)
            requires
                0 <= speed <= 320,
                0 <= dt_ms,
        ;
        let offset = state.offset + speed * (dt_ms as u64);
        ScrollState { offset, in_scroll: offset < range }
    } else {
        ScrollState { offset: state.offset, in_scroll: false }
    }
}

/// A user's scroll gesture sets the offset and latches autoscroll off.
pub fn user_scrolled(offset: u64) -> (next: ScrollState)
    ensures
        next.offset == offset,
        !next.in_scroll,
{
    ScrollState { offset, in_scroll: false }
}

/// Two frames of autoscroll advance the offset as one frame of their joint
/// length does, as long as the first leaves the offset short of the range.
pub proof fn lemma_autoscroll_adds_up(
    offset: int,
    speed_index: int,
    dt1: int,
    dt2: int,
    range: int,
)
    requires
        0 <= dt1,
        0 <= dt2,
        autoscrolled(offset, true, speed_index, dt1, range).1,
    ensures
        ({
            let first = autoscrolled(offset, true, speed_index, dt1, range);
            autoscrolled(first.0, first.1, speed_index, dt2, range) == autoscrolled(
                offset,
                true,
                speed_index,
                dt1 + dt2,
                range,
            )
        }),
{
    let speed = speed_of(speed_index);
    assert(speed * (dt1 + dt2) == speed * dt1 + speed * dt2) by (nonlinear_arith);
}

/// Autoscroll never moves the offset backwards.
pub proof fn lemma_autoscroll_monotonic(
    offset: int,
    in_scroll: bool,
    speed_index: int,
    dt_ms: int,
    range: int,
)
    requires
        0 <= dt_ms,
    ensures
        autoscrolled(offset, in_scroll, speed_index, dt_ms, range).0 >= offset,
{
    let speed = speed_of(speed_index);
    assert(speed * dt_ms >= 0) by (nonlinear_arith)
        requires
            speed >= 0,
            dt_ms >= 0,
    ;
}


/// Velocities are held within this bound, in thousandths of a pixel per
/// second.
pub const MAX_VELOCITY: i64 = 1_000_000_000_000;

/// `a / d` rounded towards zero.
pub open spec fn toward_zero(a: int, d: int) -> int {
    if a >= 0 {
        a / d
    } else {
        -((-a) / d)
    }
}

/// The velocity after `dt_ms` milliseconds of friction with coefficient 10
/// per second: it loses a hundredth of itself for each millisecond, and is
/// spent after a tenth of a second.
pub open spec fn decayed(velocity: int, dt_ms: int) -> int {
    if dt_ms >= 100 {
        0
    } else {
        velocity - toward_zero(velocity * dt_ms, 100)
    }
}

/// The distance covered in `dt_ms` milliseconds at `velocity`, in
/// thousandths of a pixel.
pub open spec fn travelled(velocity: int, dt_ms: int) -> int {
    toward_zero(velocity * dt_ms, 1000)
}

/// `v` limited to the range of velocities.
pub open spec fn bounded_velocity(v: int) -> int {
    if v < -1_000_000_000_000 {
        -1_000_000_000_000
    } else if v > 1_000_000_000_000 {
        1_000_000_000_000
    } else {
        v
    }
}

pub fn bound_velocity(v: i64) -> (bounded: i64)
    ensures
        bounded == bounded_velocity(v as int),
{
    if v < -MAX_VELOCITY {
        -MAX_VELOCITY
    } else if v > MAX_VELOCITY {
        MAX_VELOCITY
    } else {
        v
    }
}

/// One frame of coasting: the velocity decays, and the view moves at the
/// decayed velocity. Returns the new velocity and the distance covered.
pub fn coast(velocity: i64, dt_ms: u32) -> (next: (i64, i64))
    requires
        -MAX_VELOCITY <= velocity <= MAX_VELOCITY,
    ensures
        next.0 == decayed(velocity as int, dt_ms as int),
        next.1 == travelled(next.0 as int, dt_ms as int),
        -MAX_VELOCITY <= next.0 <= MAX_VELOCITY,
{
    if dt_ms >= 100 {
        assert(travelled(0, dt_ms as int) == 0) by (nonlinear_arith);
        return (0, 0);
    }
    let dt = dt_ms as i64;
    proof {
        lemma_coast_settles(velocity as int, dt_ms as int);
    }
    if velocity >= 0 {
        assert(0 <= velocity * dt <= 100 * MAX_VELOCITY) by (nonlinear_arith)
            requires
                0 <= velocity <= MAX_VELOCITY,
                0 <= dt < 100,
        ;
        let slowed = velocity - velocity * dt / 100;
        assert(0 <= slowed * dt <= 100 * MAX_VELOCITY) by (nonlinear_arith)
            requires
                0 <= slowed <= MAX_VELOCITY,
                0 <= dt < 100,
        ;
        (slowed, slowed * dt / 1000)
    } else {
        let magnitude = -velocity;
        assert(0 <= magnitude * dt <= 100 * MAX_VELOCITY) by (nonlinear_arith)
            requires
                0 <= magnitude <= MAX_VELOCITY,
                0 <= dt < 100,
        ;
        assert(velocity * dt == -(magnitude * dt)) by (nonlinear_arith)
            requires
                magnitude == -velocity,
        ;
        let slowed = magnitude - magnitude * dt / 100;
        assert(0 <= slowed * dt <= 100 * MAX_VELOCITY) by (nonlinear_arith)
            requires
                0 <= slowed <= MAX_VELOCITY,
                0 <= dt < 100,
        ;
        assert((-slowed) * dt == -(slowed * dt)) by (nonlinear_arith);
        (-slowed, -(slowed * dt / 1000))
    }
}

/// Friction never speeds the view up and never turns it round.
pub proof fn lemma_coast_settles(velocity: int, dt_ms: int)
    requires
        0 <= dt_ms,
    ensures
        velocity >= 0 ==> 0 <= decayed(velocity, dt_ms) <= velocity,
        velocity <= 0 ==> velocity <= decayed(velocity, dt_ms) <= 0,
{
    if dt_ms < 100 {
        if velocity >= 0 {
            assert(0 <= velocity * dt_ms <= velocity * 100) by (nonlinear_arith)
                requires
                    0 <= velocity,
                    0 <= dt_ms < 100,
            ;
        } else {
            let m = -velocity;
            assert(0 <= m * dt_ms <= m * 100 && velocity * dt_ms == -(m * dt_ms))
                by (nonlinear_arith)
                requires
                    0 < m,
                    m == -velocity,
                    0 <= dt_ms < 100,
            ;
        }
    }
}

/// The offset `distance` thousandths of a pixel before `offset`, kept within
/// the range of offsets.
pub open spec fn moved_back(offset: int, distance: int) -> int {
    if offset - distance < 0 {
        0
    } else if offset - distance > u64::MAX {
        u64::MAX as int
    } else {
        offset - distance
    }
}

pub fn move_back(offset: u64, distance: i64) -> (moved: u64)
    ensures
        moved == moved_back(offset as int, distance as int),
{
    if distance >= 0 {
        let d = distance as u64;
        if d > offset {
            0
        } else {
            offset - d
        }
    } else {
        let d: u64 = if distance == i64::MIN {
            0x8000_0000_0000_0000u64
        } else {
            (-distance) as u64
        };
        if d > u64::MAX - offset {
            u64::MAX
        } else {
            offset + d
        }
    }
}

} // verus!
