use loopers_gui::timeline::{beat_grid, recording_span, tile_start, PixelMap};

#[test]
fn time_axis_is_linear_with_quarter_anchor() {
    let map = PixelMap::new(650, 12_000);
    assert_eq!(map.denominator(), 48_000);
    // x(0) = -0.25 * 650 = -162.5 px
    assert_eq!(map.time_to_x(0), -650 * 12_000);
    // slope: 650 / 12000 px per sample
    assert_eq!(map.time_to_x(12_000) - map.time_to_x(0), 4 * 650 * 12_000);
    assert_eq!(map.time_to_x(3_000), 0);
    assert_eq!(map.time_to_pixels(6_000), 4 * 650 * 6_000);
}

#[test]
fn inverse_mapping_recovers_time() {
    let map = PixelMap::new(650, 12_000);
    for t in [-50_000i64, -1, 0, 1, 3_000, 12_345, 60_000, i64::MAX, i64::MIN] {
        assert_eq!(map.x_to_time(map.time_to_x(t)), t as i128);
    }
}

#[test]
fn tile_start_scenario() {
    // 48000 < 60000 < 96000: the greatest multiple below 60000 - 48000 is 0
    assert_eq!(tile_start(48_000, 60_000), 0);
    assert_eq!(tile_start(48_000, 10_000), 0);
    assert_eq!(tile_start(48_000, 100_000), 48_000);
    assert_eq!(tile_start(48_000, 96_000), 0);
    assert_eq!(tile_start(48_000, 48_000), -48_000);
}

#[test]
fn tiles_begin_at_minus_x_of_now() {
    let map = PixelMap::new(650, 12_000);
    let tiles = map.tiles(48_000, 60_000);
    assert!(!tiles.is_empty());
    assert_eq!(tiles[0].x, -map.time_to_x(60_000));
    assert!(!tiles[0].marker);
}

#[test]
fn tiles_cover_twice_the_width_without_gaps() {
    let map = PixelMap::new(650, 12_000);
    let limit: i128 = 2 * 650 * map.denominator() as i128;
    for (length, now) in [(4_000u64, 20_000i64), (5_000, 7_777), (48_000, 60_000), (2_999, 123_456), (3_000, 3_000)] {
        let tiles = map.tiles(length, now);
        let period: i128 = 4 * 650 * length as i128;
        assert!(tiles[0].x <= 0);
        for k in 1..tiles.len() {
            assert_eq!(tiles[k].x - tiles[k - 1].x, period);
            assert!(tiles[k].marker);
        }
        let last = tiles[tiles.len() - 1].x;
        assert!(last < limit);
        assert!(last + period >= limit);
    }
}

#[test]
fn first_tile_has_marker_when_not_at_zero() {
    let map = PixelMap::new(650, 12_000);
    let tiles = map.tiles(1_000, 20_000);
    assert_eq!(tile_start(1_000, 20_000), 18_000);
    assert!(tiles[0].marker);
    // only 2000 samples of this period lie left of the playhead, less than
    // the quarter window: the first tile starts right of zero
    assert!(tiles[0].x > 0);
}

#[test]
fn no_tiles_for_zero_width() {
    let map = PixelMap::new(0, 12_000);
    assert!(map.tiles(1_000, 5_000).is_empty());
}

#[test]
fn grid_offset_is_within_one_width() {
    let map = PixelMap::new(650, 12_000);
    let w: i128 = 650 * map.denominator() as i128;
    assert_eq!(map.grid_offset(3_000), 0);
    // x(9000) = 0.5 * 650 px
    assert_eq!(map.grid_offset(9_000), -(w / 2));
    // x(15000) = 650 px: a whole width
    assert_eq!(map.grid_offset(15_000), 0);
    let o = map.grid_offset(-77_777);
    assert!(-w < o && o <= 0);
}

#[test]
fn recording_span_keeps_newest_points() {
    let s = recording_span(1_000, 600);
    assert_eq!((s.start, s.len), (350, 250));
    let s = recording_span(1_000, 100);
    assert_eq!((s.start, s.len), (0, 100));
    let s = recording_span(1_000, 0);
    assert_eq!((s.start, s.len), (0, 0));
}

#[test]
fn beat_grid_marks_bars() {
    assert_eq!(beat_grid(12_000, 5_000, 4), vec![true, false, false]);
    assert_eq!(beat_grid(12_000, 3_000, 2), vec![true, false, true, false]);
    assert_eq!(beat_grid(12_000, 1_000, 4).len(), 12);
    assert!(beat_grid(0, 1_000, 4).is_empty());
}
