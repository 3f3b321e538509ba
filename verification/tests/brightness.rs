use txtpic_lib::character_set::calculate_character_brightness::calculate_character_brightness;
use txtpic_lib::canvas::brightness_from_raster;
use txtpic_lib::coverage::coverage_units;

/// A character with no visible ink has no pixel bounding box and scores
/// exactly zero.
#[test]
fn space_scores_zero() {
    assert_eq!(calculate_character_brightness(' '), 0);
}

/// Repeated calls with the same character return identical results.
#[test]
fn repeated_calls_agree() {
    for c in ['M', '.', ' ', 'a', '@', '\u{2588}'] {
        let first = calculate_character_brightness(c);
        let second = calculate_character_brightness(c);
        assert_eq!(first, second);
    }
}

/// Every character of the printable ASCII range scores within [0, 255].
#[test]
fn scores_stay_in_range() {
    for b in 0x20u8..0x7F {
        let score = calculate_character_brightness(b as char);
        assert!(0 <= score && score <= 255);
    }
}

/// Reference scores of a few characters against the embedded typeface.
#[test]
fn reference_scores() {
    let got: Vec<i32> = ['M', '.', '@', 'a', '\u{2588}']
        .iter()
        .map(|&c| calculate_character_brightness(c))
        .collect();
    assert_eq!(got, vec![44, 3, 52, 32, 227]);
}

/// A dense glyph scores strictly higher than one with minimal ink.
#[test]
fn heavy_glyph_outscores_light() {
    let block = calculate_character_brightness('\u{2588}');
    let light = calculate_character_brightness('.');
    assert!(block > light);
    assert!(calculate_character_brightness('@') > light);
}

/// One coverage sample of a whole covered pixel is worth 255 fixed-point
/// units, one of a half covered pixel half as much, and so on exactly.
#[test]
fn coverage_units_are_exact() {
    assert_eq!(coverage_units(1.0f32.to_bits()), 0xFF_0000);
    assert_eq!(coverage_units(0.5f32.to_bits()), 8_355_840);
    assert_eq!(coverage_units(0.25f32.to_bits()), 4_177_920);
    assert_eq!(coverage_units(0.75f32.to_bits()), 12_533_760);
    assert_eq!(coverage_units(0.0f32.to_bits()), 0);
}

/// Negative coverage reports clamp to no ink, values above one clamp to
/// full ink, and subnormal slivers truncate to nothing.
#[test]
fn coverage_units_clamp() {
    assert_eq!(coverage_units((-0.5f32).to_bits()), 0);
    assert_eq!(coverage_units((-0.0f32).to_bits()), 0);
    assert_eq!(coverage_units(1.5f32.to_bits()), 0xFF_0000);
    assert_eq!(coverage_units(f32::INFINITY.to_bits()), 0xFF_0000);
    assert_eq!(coverage_units(f32::from_bits(0x0000_0001).to_bits()), 0);
}

/// A raster whose bounding box lies wholly off the canvas scores zero and
/// does not panic, whichever side it falls off.
#[test]
fn offscreen_raster_scores_zero() {
    let ink = 1.0f32.to_bits();
    let samples: Vec<(u32, u32, u32)> = (0..10).flat_map(|x| (0..10).map(move |y| (x, y, ink))).collect();
    assert_eq!(brightness_from_raster(-100, -100, &samples), 0);
    assert_eq!(brightness_from_raster(100, 0, &samples), 0);
    assert_eq!(brightness_from_raster(0, 100, &samples), 0);
    assert_eq!(brightness_from_raster(i32::MIN, i32::MAX, &samples), 0);
}

/// A canvas wholly covered with full ink scores exactly 255, and one
/// wholly covered with half ink truncates to 127.
#[test]
fn full_and_half_canvas_scores() {
    let full: Vec<(u32, u32, u32)> =
        (0..50).flat_map(|x| (0..50).map(move |y| (x, y, 1.0f32.to_bits()))).collect();
    assert_eq!(brightness_from_raster(0, 0, &full), 255);
    let half: Vec<(u32, u32, u32)> =
        (0..50).flat_map(|x| (0..50).map(move |y| (x, y, 0.5f32.to_bits()))).collect();
    assert_eq!(brightness_from_raster(0, 0, &half), 127);
}

/// One covered cell out of 2500 is below one whole brightness step, so
/// the mean truncates to zero.
#[test]
fn single_cell_truncates_to_zero() {
    let samples = vec![(0u32, 0u32, 1.0f32.to_bits())];
    assert_eq!(brightness_from_raster(0, 0, &samples), 0);
}

/// Where two samples land on one cell, the later write wins.
#[test]
fn later_sample_wins_cell() {
    let mut samples: Vec<(u32, u32, u32)> =
        (0..50).flat_map(|x| (0..50).map(move |y| (x, y, 1.0f32.to_bits()))).collect();
    samples.push((0, 0, 0.0f32.to_bits()));
    assert_eq!(brightness_from_raster(0, 0, &samples), 254);
}

/// The bounding box origin translates samples onto the canvas: a box
/// hanging half off the left edge keeps only its right half.
#[test]
fn clipped_box_keeps_inner_half() {
    let samples: Vec<(u32, u32, u32)> =
        (0..50).flat_map(|x| (0..50).map(move |y| (x, y, 1.0f32.to_bits()))).collect();
    assert_eq!(brightness_from_raster(-25, 0, &samples), 127);
}
