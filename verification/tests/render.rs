use icy_view::blink::{Blink, CHARACTER_BLINK_RATE};
use icy_view::buffer::{Buffer, BufferFlags, Cell, CellFlags, Font, Layer, Palette};
use icy_view::color::Color;
use icy_view::render::{shade, OutputRenderer};

fn plain() -> CellFlags {
    CellFlags { blink: false, underline: false, double_height_top: false, double_height_bottom: false }
}

fn blinking() -> CellFlags {
    CellFlags { blink: true, ..plain() }
}

fn cell(glyph: u8, fg_ix: u8, bg_ix: u8, flags: CellFlags) -> Cell {
    Cell { glyph, font_index: 0, fg_ix, bg_ix, flags }
}

/// A font of 4 by 2 pixels in which glyph `g` has the rows `g << 12` and
/// `!g << 12`: the bits of the glyph number and their complement.
fn bit_font() -> Font {
    let mut rows = Vec::new();
    for g in 0..256u16 {
        rows.push((g & 0xF) << 12);
        rows.push((!g & 0xF) << 12);
    }
    Font { width: 4, height: 2, rows }
}

fn palette() -> Palette {
    Palette {
        colors: vec![
            Color::new(0, 0, 0),
            Color::new(10, 20, 30),
            Color::new(200, 100, 50),
            Color::new(255, 255, 255),
        ],
    }
}

fn buffer(width: usize, height: usize, real_height: usize, cells: Vec<Cell>, use_ice: bool) -> Buffer {
    Buffer {
        width,
        height,
        real_height,
        layers: vec![Layer { cells: cells.into_iter().map(Some).collect() }],
        palette: palette(),
        fonts: vec![bit_font()],
        flags: BufferFlags { use_ice, use_letter_spacing: false, use_aspect_ratio: false },
        sixels: Vec::new(),
    }
}

#[test]
fn font_mask_reads_the_highest_bit_first() {
    let font = bit_font();
    // Glyph 0b1010: row 0 is 1010, row 1 is 0101.
    assert!(font.mask(10, 0, 0));
    assert!(!font.mask(10, 1, 0));
    assert!(font.mask(10, 2, 0));
    assert!(!font.mask(10, 3, 0));
    assert!(!font.mask(10, 0, 1));
    assert!(font.mask(10, 1, 1));
    // Beyond the glyph nothing is set.
    assert!(!font.mask(10, 4, 0));
    assert!(!font.mask(10, 0, 2));
}

#[test]
fn shade_picks_foreground_on_the_glyph_and_background_elsewhere() {
    let c = cell(1, 2, 1, plain());
    assert_eq!(shade(c, true, false, false), 2);
    assert_eq!(shade(c, false, false, false), 1);
    assert_eq!(shade(c, true, true, true), 2);
}

#[test]
fn shade_hides_a_blinking_glyph_while_the_phase_is_off() {
    let c = cell(1, 2, 1, blinking());
    assert_eq!(shade(c, true, false, false), 1);
    assert_eq!(shade(c, true, false, true), 2);
    assert_eq!(shade(c, false, false, false), 1);
    assert_eq!(shade(c, false, false, true), 1);
}

#[test]
fn shade_never_hides_a_glyph_in_ice_mode() {
    let c = cell(1, 2, 1, blinking());
    assert_eq!(shade(c, true, true, false), 2);
    assert_eq!(shade(c, true, true, true), 2);
}

#[test]
fn pixel_has_palette_colour_of_foreground_or_background() {
    let buf = buffer(2, 1, 1, vec![cell(0b1000, 2, 1, plain()), cell(0b0001, 3, 0, plain())], false);
    assert_eq!(buf.get_font_dimensions(), (4, 2));
    assert_eq!(buf.render_buffer_size(), (8, 2));
    for blink_on in [false, true] {
        for py in 0..2 {
            for px in 0..8 {
                let c = buf.cell_at(px / 4, py / 2);
                let mask = buf.fonts[0].mask(c.glyph, px % 4, py % 2);
                let expected = buf.palette.colors[if mask { c.fg_ix } else { c.bg_ix } as usize];
                assert_eq!(buf.pixel_color(px, py, 0, blink_on), expected);
            }
        }
    }
    assert_eq!(buf.pixel_color(0, 0, 0, false), Color::new(200, 100, 50));
    assert_eq!(buf.pixel_color(1, 0, 0, false), Color::new(10, 20, 30));
    assert_eq!(buf.pixel_color(7, 0, 0, false), Color::new(255, 255, 255));
    assert_eq!(buf.pixel_color(7, 1, 0, false), Color::new(0, 0, 0));
}

#[test]
fn pixel_follows_the_first_visible_line() {
    let buf = buffer(1, 1, 2, vec![cell(0b1000, 2, 1, plain()), cell(0b1000, 3, 0, plain())], false);
    assert_eq!(buf.pixel_color(0, 0, 0, false), Color::new(200, 100, 50));
    assert_eq!(buf.pixel_color(0, 0, 1, false), Color::new(255, 255, 255));
}

#[test]
fn upper_layer_covers_the_base_where_it_is_not_transparent() {
    let mut buf = buffer(2, 1, 1, vec![cell(1, 2, 1, plain()), cell(2, 2, 1, plain())], false);
    buf.layers.push(Layer { cells: vec![None, Some(cell(7, 3, 0, plain()))] });
    assert_eq!(buf.cell_at(0, 0).glyph, 1);
    assert_eq!(buf.cell_at(1, 0).glyph, 7);
}

#[test]
fn blinking_pixel_flips_with_the_character_blink() {
    let buf = buffer(1, 1, 1, vec![cell(0b1000, 2, 1, blinking())], false);
    let mut blink = Blink::new(CHARACTER_BLINK_RATE);
    let mut last = buf.pixel_color(0, 0, 0, blink.is_on());
    assert_eq!(last, Color::new(10, 20, 30));
    let mut flips_by_278 = 0;
    let mut flips_by_556 = 0;
    for now in 0..=556u128 {
        blink.update(now);
        let pixel = buf.pixel_color(0, 0, 0, blink.is_on());
        if pixel != last {
            if now <= 278 {
                flips_by_278 += 1;
            }
            flips_by_556 += 1;
        }
        last = pixel;
    }
    // The character blink has a period of 555 ms: the pixel flips once in
    // the first period, and not yet within 278 ms.
    assert_eq!(flips_by_278, 0);
    assert_eq!(flips_by_556, 1);
    assert_eq!(last, Color::new(200, 100, 50));
}

#[test]
fn blinking_pixel_is_stable_in_ice_mode() {
    let buf = buffer(1, 1, 1, vec![cell(0b1000, 2, 1, blinking())], true);
    let mut blink = Blink::new(CHARACTER_BLINK_RATE);
    for now in 0..=1000u128 {
        blink.update(now);
        assert_eq!(buf.pixel_color(0, 0, 0, blink.is_on()), Color::new(200, 100, 50));
    }
}

#[test]
fn frame_is_rgba_row_by_row() {
    let buf = buffer(1, 1, 1, vec![cell(0b1000, 2, 1, plain())], false);
    let frame = buf.render_frame(0, true);
    assert_eq!(frame.len(), 4 * 4 * 2);
    assert_eq!(&frame[0..4], &[200, 100, 50, 255]);
    assert_eq!(&frame[4..8], &[10, 20, 30, 255]);
    // Second row of glyph 0b1000 is 0111.
    assert_eq!(&frame[16..20], &[10, 20, 30, 255]);
    assert_eq!(&frame[20..24], &[200, 100, 50, 255]);
}

#[test]
fn buffer_without_columns_or_lines_has_no_pixels() {
    let no_columns = buffer(0, 5, 5, Vec::new(), false);
    assert!(no_columns.render_frame(0, false).is_empty());
    let no_lines = buffer(3, 0, 0, Vec::new(), false);
    assert!(no_lines.render_frame(0, false).is_empty());
}

#[test]
fn largest_font_gives_the_cell_size() {
    let mut buf = buffer(2, 3, 3, vec![cell(0, 0, 0, plain()); 6], false);
    buf.fonts.push(Font { width: 8, height: 1, rows: vec![0; 256] });
    assert_eq!(buf.get_font_dimensions(), (8, 2));
    assert_eq!(buf.render_buffer_size(), (16, 6));
    buf.fonts.clear();
    assert_eq!(buf.get_font_dimensions(), (0, 0));
}

#[test]
fn frame_is_allocated_anew_when_its_size_changes() {
    let mut buf = buffer(2, 1, 1, vec![cell(0, 0, 0, plain()); 2], false);
    let mut renderer = OutputRenderer::new(&buf);
    assert_eq!(renderer.render_buffer_size, (8, 2));
    assert!(!renderer.update_render_buffer(&buf));
    buf.fonts.push(Font { width: 8, height: 16, rows: vec![0; 256 * 16] });
    assert!(renderer.update_render_buffer(&buf));
    assert_eq!(renderer.render_buffer_size, (16, 16));
    assert!(!renderer.update_render_buffer(&buf));
}

#[test]
fn line_length_stops_at_the_last_glyph_that_is_not_blank() {
    let cells: Vec<Cell> = "ab  c   ".bytes().map(|g| cell(g, 1, 0, plain())).collect();
    let buf = buffer(4, 2, 2, cells, false);
    assert_eq!(buf.get_line_length(0), 2);
    assert_eq!(buf.get_line_length(1), 1);
    let blank = buffer(3, 1, 1, vec![cell(32, 1, 0, plain()); 3], false);
    assert_eq!(blank.get_line_length(0), 0);
}
