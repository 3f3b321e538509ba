//! Brightness of a single character.
//!
//! A character is laid out as a glyph of the embedded typeface at a fixed
//! scale (100 units wide, 50 units tall), shifted down by the font's
//! ascent so that no glyph is ever clipped at the top, and rasterized.
//! The raster — the glyph's pixel bounding box origin together with one
//! coverage sample per pixel of the box — is a pure function of the
//! character, since the typeface, scale and offset are fixed constants of
//! the algorithm; `glyph_raster` names that function, and the rasterizer
//! wrapper is trusted to compute it.  Everything after the rasterizer
//! call — clipping to the canvas, accumulation, averaging — is verified
//! against the canvas model.

use vstd::prelude::*;
use crate::canvas::{RasterSample, raster_brightness, brightness_from_raster, lemma_raster_brightness_in_range};

verus! {

/// The raster of a character's glyph: the pixel bounding box origin
/// (leftmost column, topmost row, either possibly negative) and the
/// coverage samples the rasterizer visits, in scanline order.  `None`
/// when the glyph has no pixel bounding box — a character with no
/// visible ink, such as the space.
pub uninterp spec fn glyph_raster(c: char) -> Option<((i32, i32), Seq<RasterSample>)>;

/// The brightness score of a character: its glyph's raster reduced over
/// the coverage canvas, or 0 for a glyph with no ink at all.
pub open spec fn character_brightness(c: char) -> int {
    match glyph_raster(c) {
        Option::None => 0,
        Option::Some(g) => raster_brightness(g.0.0 as int, g.0.1 as int, g.1),
    }
}

/// Relies on rusttype 0.9 (`Font::try_from_bytes`, `Font::v_metrics`,
/// `Font::layout`, `PositionedGlyph::pixel_bounding_box`,
/// `PositionedGlyph::draw`) and on the embedded typeface bytes
/// (`notosans::REGULAR_TTF`): laying out one character at the fixed scale
/// and offset and rasterizing it is a deterministic computation over the
/// character and the fixed font bytes alone, so its outcome is
/// `glyph_raster(c)`.  `draw` reports each pixel of the bounding box once,
/// in scanline order, with coordinates relative to the box's minimum
/// corner and an analytically computed coverage fraction, whose raw bit
/// pattern is what the sample records.  The font bytes are a build-time
/// constant; if they cannot be parsed the evaluator aborts, since a
/// corrupted embedded asset leaves no meaningful degraded mode.
#[verifier::external_body]
fn rasterize_character(c: char) -> (raster: Option<((i32, i32), Vec<RasterSample>)>)
    ensures
        (match raster {
            Option::Some(g) => glyph_raster(c) == Option::Some((g.0, g.1@)),
            Option::None => glyph_raster(c) is None,
        }),
{
    let font = rusttype::Font::try_from_bytes(notosans::REGULAR_TTF).expect("the embedded font asset does not parse");
    let scale = rusttype::Scale { x: 100u8.into(), y: 50u8.into() };
    let start = rusttype::point(0u8.into(), font.v_metrics(scale).ascent);
    let glyph = font.layout(&c.to_string(), scale, start).last()?;
    let bounds = glyph.pixel_bounding_box()?;
    let mut samples = Vec::new();
    glyph.draw(|x, y, v| samples.push((x, y, v.to_bits())));
    Some(((bounds.min.x, bounds.min.y), samples))
}

/// Returns the brightness value between 0 and 255 for the input
/// character: the mean coverage of the character's glyph rendered over
/// the fixed 50 x 50 canvas, truncated to a whole brightness step.
pub fn calculate_character_brightness(c: char) -> (brightness: i32)
    ensures
        brightness == character_brightness(c),
        0 <= brightness <= 255,
{
    match rasterize_character(c) {
        Option::Some(g) => brightness_from_raster(g.0.0, g.0.1, &g.1),
        Option::None => 0,
    }
}

/// The evaluator is deterministic: two brightness scores of one character
/// are one score, whatever call produced them.
pub proof fn lemma_brightness_deterministic(c: char, first: int, second: int)
    requires
        first == character_brightness(c),
        second == character_brightness(c),
    ensures
        first == second,
{
}

/// Every character scores between 0 and 255.
pub proof fn lemma_brightness_in_range(c: char)
    ensures
        0 <= character_brightness(c) <= 255,
{
    match glyph_raster(c) {
        Option::None => {},
        Option::Some(g) => {
            lemma_raster_brightness_in_range(g.0.0 as int, g.0.1 as int, g.1);
        },
    }
}

/// A character whose glyph has no visible ink scores exactly zero.
pub proof fn lemma_no_ink_scores_zero(c: char)
    requires
        glyph_raster(c) is None,
    ensures
        character_brightness(c) == 0,
{
}

} // verus!
