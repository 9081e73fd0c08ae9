use icy_view::color::Color;
use icy_view::geometry::{Position, Size};
use icy_view::sixel::{Sixel, SixelCache, SixelStatus};

fn red() -> Option<Color> {
    Some(Color::new(255, 0, 0))
}

fn green() -> Option<Color> {
    Some(Color::new(0, 255, 0))
}

/// A picture of `width` columns and `height` rows, all of one colour.
fn filled(x: i32, y: i32, width: usize, height: usize, status: SixelStatus, c: Option<Color>) -> Sixel {
    Sixel {
        position: Position::new(x, y),
        read_status: status,
        picture: vec![vec![c; height]; width],
    }
}

#[test]
fn sixel_extent_comes_from_the_picture() {
    let sixel = filled(0, 0, 3, 5, SixelStatus::Finished, red());
    assert_eq!(sixel.width(), 3);
    assert_eq!(sixel.height(), 5);
    let empty = Sixel { position: Position::new(0, 0), read_status: SixelStatus::Finished, picture: vec![] };
    assert_eq!(empty.width(), 0);
    assert_eq!(empty.height(), 0);
}

#[test]
fn current_line_counts_six_pixel_rows_per_sixel_row() {
    let parsing = filled(0, 0, 2, 18, SixelStatus::Parsing(2), red());
    assert_eq!(parsing.current_line(), 12);
    let finished = filled(0, 0, 2, 18, SixelStatus::Finished, red());
    assert_eq!(finished.current_line(), 18);
    let failed = filled(0, 0, 2, 7, SixelStatus::Error, red());
    assert_eq!(failed.current_line(), 7);
}

#[test]
fn pixel_is_opaque_colour_or_transparent_black() {
    let mut sixel = filled(0, 0, 2, 2, SixelStatus::Finished, red());
    sixel.picture[1][0] = None;
    sixel.picture[1].truncate(1);
    assert_eq!(sixel.pixel_rgba(0, 0), [255, 0, 0, 255]);
    assert_eq!(sixel.pixel_rgba(1, 0), [0, 0, 0, 0]);
    assert_eq!(sixel.pixel_rgba(1, 1), [0, 0, 0, 0]);
    assert_eq!(sixel.pixel_rgba(2, 0), [0, 0, 0, 0]);
}

#[test]
fn decode_rows_writes_rows_in_row_major_order() {
    let mut sixel = filled(0, 0, 2, 2, SixelStatus::Finished, red());
    sixel.picture[1][1] = green();
    let data = sixel.decode_rows(Vec::new(), 0);
    assert_eq!(
        data,
        vec![255, 0, 0, 255, 255, 0, 0, 255, 255, 0, 0, 255, 0, 255, 0, 255]
    );
}

#[test]
fn decode_rows_keeps_rows_before_the_first_and_grows_with_zeros() {
    let sixel = filled(0, 0, 1, 3, SixelStatus::Finished, red());
    let data = sixel.decode_rows(vec![9, 9, 9, 9], 2);
    assert_eq!(data, vec![9, 9, 9, 9, 0, 0, 0, 0, 255, 0, 0, 255]);
}

#[test]
fn decode_rows_keeps_a_longer_buffer() {
    let sixel = filled(0, 0, 1, 1, SixelStatus::Finished, green());
    let data = sixel.decode_rows(vec![1, 2, 3, 4, 5, 6, 7, 8], 0);
    assert_eq!(data, vec![0, 255, 0, 255, 5, 6, 7, 8]);
}

#[test]
fn decode_rows_reaches_past_the_picture_while_parsing() {
    // One sixel row is announced, but the column holds two pixels only.
    let sixel = filled(0, 0, 1, 2, SixelStatus::Parsing(1), red());
    let data = sixel.decode_rows(Vec::new(), 0);
    assert_eq!(data.len(), 4 * 6);
    assert_eq!(&data[0..8], &[255, 0, 0, 255, 255, 0, 0, 255]);
    assert!(data[8..].iter().all(|b| *b == 0));
}

#[test]
fn update_without_overlays_empties_the_cache_and_releases_textures() {
    let mut cache = SixelCache::new();
    let mut sixels = vec![filled(0, 0, 2, 2, SixelStatus::Finished, red())];
    let update = cache.update_sixels(&mut sixels);
    assert_eq!(update.upload, Some(0));
    cache.attach_texture(0, 42);
    let mut none: Vec<Sixel> = Vec::new();
    let update = cache.update_sixels(&mut none);
    assert!(!update.changed);
    assert_eq!(update.upload, None);
    assert_eq!(update.released, vec![42]);
    assert_eq!(cache.len(), 0);
}

#[test]
fn finished_overlay_is_decoded_and_marked_for_upload() {
    let mut cache = SixelCache::new();
    let mut sixels = vec![filled(3, 4, 2, 1, SixelStatus::Finished, green())];
    let update = cache.update_sixels(&mut sixels);
    assert!(update.changed);
    assert_eq!(update.upload, Some(0));
    assert!(update.released.is_empty());
    assert_eq!(cache.len(), 1);
    let entry = cache.entry(0);
    assert_eq!(entry.status, SixelStatus::Finished);
    assert_eq!(entry.old_line, 1);
    assert_eq!(entry.pos, Position::new(3, 4));
    assert_eq!(entry.size, Size { width: 2, height: 1 });
    assert_eq!(entry.texture_opt, None);
    assert_eq!(entry.data_opt, Some(vec![0, 255, 0, 255, 0, 255, 0, 255]));
}

#[test]
fn attach_texture_drops_the_bytes() {
    let mut cache = SixelCache::new();
    let mut sixels = vec![filled(0, 0, 1, 1, SixelStatus::Finished, green())];
    cache.update_sixels(&mut sixels);
    cache.attach_texture(0, 7);
    let entry = cache.entry(0);
    assert_eq!(entry.texture_opt, Some(7));
    assert_eq!(entry.data_opt, None);
    assert_eq!(entry.status, SixelStatus::Finished);
}

#[test]
fn unchanged_overlay_is_skipped() {
    let mut cache = SixelCache::new();
    let mut sixels = vec![filled(0, 0, 1, 1, SixelStatus::Finished, green())];
    assert!(cache.update_sixels(&mut sixels).changed);
    let again = cache.update_sixels(&mut sixels);
    assert!(!again.changed);
    assert_eq!(again.upload, None);
    assert_eq!(cache.len(), 1);
}

#[test]
fn overlay_without_pixels_is_skipped() {
    let mut cache = SixelCache::new();
    let mut sixels = vec![Sixel {
        position: Position::new(0, 0),
        read_status: SixelStatus::Finished,
        picture: vec![vec![], vec![]],
    }];
    let update = cache.update_sixels(&mut sixels);
    assert!(!update.changed);
    assert_eq!(cache.len(), 0);
}

#[test]
fn parsing_overlay_is_refreshed_every_thirty_rows() {
    let mut cache = SixelCache::new();
    let mut sixels = vec![filled(0, 0, 1, 60, SixelStatus::Parsing(1), red())];
    assert!(cache.update_sixels(&mut sixels).changed);
    assert_eq!(cache.entry(0).old_line, 6);
    // 24 rows further: fewer than 30, no refresh.
    sixels[0].read_status = SixelStatus::Parsing(5);
    assert!(!cache.update_sixels(&mut sixels).changed);
    assert_eq!(cache.entry(0).old_line, 6);
    // 30 rows further: refreshed.
    sixels[0].read_status = SixelStatus::Parsing(6);
    let update = cache.update_sixels(&mut sixels);
    assert!(update.changed);
    assert_eq!(update.upload, None);
    assert_eq!(cache.entry(0).old_line, 36);
    assert_eq!(cache.entry(0).status, SixelStatus::Parsing(6));
    let data = cache.entry(0).data_opt.as_ref().unwrap();
    assert_eq!(data.len(), 4 * 60);
    assert_eq!(&data[4 * 35..4 * 36], &[255, 0, 0, 255]);
    assert_eq!(&data[4 * 36..4 * 37], &[0, 0, 0, 0]);
}

#[test]
fn finished_overlay_prunes_the_entries_it_hides() {
    let mut cache = SixelCache::new();
    let mut sixels = vec![
        filled(1, 1, 2, 2, SixelStatus::Finished, red()),
        filled(20, 20, 2, 2, SixelStatus::Finished, red()),
    ];
    // One finished overlay is taken per update.
    assert_eq!(cache.update_sixels(&mut sixels).upload, Some(0));
    cache.attach_texture(0, 11);
    assert_eq!(cache.update_sixels(&mut sixels).upload, Some(1));
    cache.attach_texture(1, 12);
    assert_eq!(cache.len(), 2);
    // A third overlay covers the first but not the second.
    sixels.push(filled(0, 0, 5, 5, SixelStatus::Finished, green()));
    let update = cache.update_sixels(&mut sixels);
    assert!(update.changed);
    assert_eq!(update.released, vec![11]);
    assert_eq!(update.upload, Some(1));
    assert_eq!(cache.len(), 2);
    assert_eq!(sixels.len(), 2);
    assert_eq!(cache.entry(0).texture_opt, Some(12));
    assert_eq!(cache.entry(1).pos, Position::new(0, 0));
    assert_eq!(sixels[0].position, Position::new(20, 20));
    assert_eq!(sixels[1].position, Position::new(0, 0));
    // No entry contains an earlier one.
    for a in 0..cache.len() {
        for b in 0..a {
            assert!(!cache.entry(a).rect().contains(cache.entry(b).rect()));
        }
    }
}

#[test]
fn parsing_overlay_prunes_nothing_until_it_finishes() {
    let mut cache = SixelCache::new();
    let mut sixels = vec![filled(1, 1, 2, 2, SixelStatus::Finished, red())];
    cache.update_sixels(&mut sixels);
    cache.attach_texture(0, 5);
    sixels.push(filled(0, 0, 9, 12, SixelStatus::Parsing(1), green()));
    let update = cache.update_sixels(&mut sixels);
    assert!(update.changed);
    assert_eq!(update.upload, None);
    assert_eq!(cache.len(), 2);
    assert!(cache.entry(1).rect().contains(cache.entry(0).rect()));
    sixels[1].read_status = SixelStatus::Finished;
    let update = cache.update_sixels(&mut sixels);
    assert_eq!(update.released, vec![5]);
    assert_eq!(update.upload, Some(0));
    assert_eq!(cache.len(), 1);
    assert_eq!(sixels.len(), 1);
}

#[test]
fn clear_invisible_keeps_what_is_not_hidden() {
    let mut cache = SixelCache::new();
    let mut sixels = vec![
        filled(0, 0, 1, 1, SixelStatus::Parsing(0), red()),
        filled(50, 50, 1, 1, SixelStatus::Parsing(0), red()),
        filled(0, 0, 3, 3, SixelStatus::Parsing(0), red()),
    ];
    cache.update_sixels(&mut sixels);
    assert_eq!(cache.len(), 3);
    let released = cache.clear_invisible_sixel_cache(&mut sixels, 2);
    assert!(released.is_empty());
    assert_eq!(cache.len(), 2);
    assert_eq!(sixels.len(), 2);
    assert_eq!(cache.entry(0).pos, Position::new(50, 50));
    assert_eq!(cache.entry(1).pos, Position::new(0, 0));
    assert_eq!(cache.entry(1).size, Size { width: 3, height: 3 });
}

#[test]
fn replaced_entry_releases_its_texture() {
    let mut cache = SixelCache::new();
    let mut sixels = vec![filled(0, 0, 1, 1, SixelStatus::Finished, red())];
    cache.update_sixels(&mut sixels);
    cache.attach_texture(0, 3);
    sixels[0].read_status = SixelStatus::Error;
    let update = cache.update_sixels(&mut sixels);
    assert_eq!(update.released, vec![3]);
    assert_eq!(update.upload, Some(0));
    assert_eq!(cache.entry(0).status, SixelStatus::Error);
    assert_eq!(cache.entry(0).texture_opt, None);
}

#[test]
fn overlays_are_drawn_in_cache_order_where_they_meet_the_frame() {
    let mut cache = SixelCache::new();
    let mut sixels = vec![filled(2, 3, 16, 8, SixelStatus::Finished, red())];
    cache.update_sixels(&mut sixels);
    cache.attach_texture(0, 1);
    sixels.push(filled(100, 3, 4, 4, SixelStatus::Finished, red()));
    cache.update_sixels(&mut sixels);
    cache.attach_texture(1, 2);
    sixels.push(filled(0, 4, 4, 4, SixelStatus::Finished, red()));
    cache.update_sixels(&mut sixels);
    // The third overlay has no texture yet.
    let draws = cache.overlay_draws(8, 16, 1, 640, 400);
    assert_eq!(draws.len(), 1);
    assert_eq!(draws[0].texture, 1);
    assert_eq!(draws[0].x, 16);
    assert_eq!(draws[0].y, 32);
    assert_eq!(draws[0].width, 16);
    assert_eq!(draws[0].height, 8);
    cache.attach_texture(2, 3);
    let draws = cache.overlay_draws(8, 16, 1, 640, 400);
    assert_eq!(draws.len(), 2);
    assert_eq!(draws[0].texture, 1);
    assert_eq!(draws[1].texture, 3);
    assert_eq!(draws[1].y, 48);
    // Scrolled far down, nothing meets the frame.
    assert!(cache.overlay_draws(8, 16, 1000, 640, 400).is_empty());
}

#[test]
fn overlays_fit_a_texture_up_to_two_gigabytes() {
    assert!(filled(0, 0, 4, 4, SixelStatus::Finished, red()).fits_texture());
    assert!(filled(0, 0, 1, 1, SixelStatus::Parsing(1_000), red()).fits_texture());
    // 4 * 1 * 6 * 100_000_000 bytes are too many.
    assert!(!filled(0, 0, 1, 1, SixelStatus::Parsing(100_000_000), red()).fits_texture());
    assert!(!filled(0, 0, 1, 1, SixelStatus::Parsing(usize::MAX), red()).fits_texture());
    let empty = Sixel {
        position: Position::new(0, 0),
        read_status: SixelStatus::Parsing(usize::MAX),
        picture: Vec::new(),
    };
    assert!(empty.fits_texture());
}
