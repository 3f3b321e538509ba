//! The coverage canvas and its reduction to a brightness score.
//!
//! A character's glyph is rasterized over a fixed canvas of
//! `CANVAS_WIDTH` x `CANVAS_HEIGHT` cells, stored row-major.  Every raster
//! sample carries coordinates relative to the glyph's pixel bounding box
//! and a raw coverage value; translating the coordinates by the bounding
//! box origin places the sample on the canvas, and samples that land
//! outside the canvas are discarded rather than clamped or wrapped.  The
//! brightness score is the mean of all cell values, truncated towards
//! zero.

use vstd::prelude::*;
use vstd::arithmetic::div_mod::{lemma_div_pos_is_pos, lemma_multiply_divide_le};
use crate::coverage::{FULL_COVERAGE, scaled_coverage, coverage_units, lemma_scaled_coverage_bound};

verus! {

/// Number of pixel columns of the canvas.
pub const CANVAS_WIDTH: usize = 50;

/// Number of pixel rows of the canvas.
pub const CANVAS_HEIGHT: usize = 50;

/// Number of cells of the canvas: `CANVAS_WIDTH` times `CANVAS_HEIGHT`.
pub const CANVAS_CELLS: usize = 2500;

/// A brightness score is the cell total divided by this: the cell count
/// times the fixed-point unit, so that a canvas wholly covered by ink
/// scores exactly 255.
pub const BRIGHTNESS_DENOM: u64 = 163_840_000;

/// One raster sample: column and row relative to the glyph's pixel
/// bounding box, and the raw coverage value of that pixel.
pub type RasterSample = (u32, u32, u32);

/// The canvas column on which a sample lands, given the bounding box's
/// leftmost column.
pub open spec fn sample_col(min_x: int, s: RasterSample) -> int {
    s.0 + min_x
}

/// The canvas row on which a sample lands, given the bounding box's
/// topmost row.
pub open spec fn sample_row(min_y: int, s: RasterSample) -> int {
    s.1 + min_y
}

/// Whether a sample lands on the canvas at all.
pub open spec fn sample_in_canvas(min_x: int, min_y: int, s: RasterSample) -> bool {
    0 <= sample_col(min_x, s) < 50 && 0 <= sample_row(min_y, s) < 50
}

/// The row-major cell index of a sample that lands on the canvas.
pub open spec fn sample_index(min_x: int, min_y: int, s: RasterSample) -> int {
    sample_col(min_x, s) + 50 * sample_row(min_y, s)
}

/// The canvas before any ink: every cell at zero.
pub open spec fn blank_canvas() -> Seq<u32> {
    Seq::new(2500, |i: int| 0u32)
}

/// One sample written onto the canvas: its cell takes the sample's
/// brightness units, or the canvas is untouched when the sample lands
/// outside it.
pub open spec fn write_sample(cells: Seq<u32>, min_x: int, min_y: int, s: RasterSample) -> Seq<u32> {
    if sample_in_canvas(min_x, min_y, s) {
        cells.update(sample_index(min_x, min_y, s), scaled_coverage(s.2) as u32)
    } else {
        cells
    }
}

/// A whole run of samples written onto the canvas, in order: where two
/// samples land on one cell, the later write wins.
pub open spec fn write_samples(cells: Seq<u32>, min_x: int, min_y: int, samples: Seq<RasterSample>) -> Seq<u32>
    decreases samples.len(),
{
    if samples.len() == 0 {
        cells
    } else {
        write_sample(write_samples(cells, min_x, min_y, samples.drop_last()), min_x, min_y, samples.last())
    }
}

/// The total brightness units held by the canvas cells.
pub open spec fn cell_total(cells: Seq<u32>) -> int
    decreases cells.len(),
{
    if cells.len() == 0 {
        0
    } else {
        cell_total(cells.drop_last()) + cells.last()
    }
}

/// The brightness score of a glyph's raster: all samples written onto a
/// blank canvas, the cells totalled, and the total averaged over the
/// canvas in whole brightness steps.
pub open spec fn raster_brightness(min_x: int, min_y: int, samples: Seq<RasterSample>) -> int {
    cell_total(write_samples(blank_canvas(), min_x, min_y, samples)) / (BRIGHTNESS_DENOM as int)
}

/// Writing samples never changes the size of the canvas.
proof fn lemma_write_samples_len(cells: Seq<u32>, min_x: int, min_y: int, samples: Seq<RasterSample>)
    requires
        cells.len() == 2500,
    ensures
        write_samples(cells, min_x, min_y, samples).len() == 2500,
    decreases samples.len(),
{
    if samples.len() > 0 {
        lemma_write_samples_len(cells, min_x, min_y, samples.drop_last());
    }
}

/// Writing samples keeps every cell within one full unit of coverage.
proof fn lemma_write_samples_bound(cells: Seq<u32>, min_x: int, min_y: int, samples: Seq<RasterSample>)
    requires
        cells.len() == 2500,
        forall|i: int| 0 <= i < cells.len() ==> #[trigger] cells[i] <= FULL_COVERAGE,
    ensures
        forall|i: int| 0 <= i < write_samples(cells, min_x, min_y, samples).len()
            ==> #[trigger] write_samples(cells, min_x, min_y, samples)[i] <= FULL_COVERAGE,
    decreases samples.len(),
{
    if samples.len() > 0 {
        lemma_write_samples_len(cells, min_x, min_y, samples.drop_last());
        lemma_write_samples_bound(cells, min_x, min_y, samples.drop_last());
        lemma_scaled_coverage_bound(samples.last().2);
    }
}

/// A canvas whose cells all stay within a bound totals at most the bound
/// taken once per cell.
proof fn lemma_cell_total_bound(cells: Seq<u32>, bound: int)
    requires
        0 <= bound,
        forall|i: int| 0 <= i < cells.len() ==> #[trigger] cells[i] <= bound,
    ensures
        0 <= cell_total(cells) <= cells.len() * bound,
    decreases cells.len(),
{
    if cells.len() == 0 {
        assert(cells.len() * bound == 0);
    } else {
        lemma_cell_total_bound(cells.drop_last(), bound);
        assert(cells.len() * bound == (cells.len() - 1) * bound + bound) by (nonlinear_arith);
    }
}

/// A canvas of untouched cells holds no brightness at all.
proof fn lemma_cell_total_zero(cells: Seq<u32>)
    requires
        forall|i: int| 0 <= i < cells.len() ==> #[trigger] cells[i] == 0,
    ensures
        cell_total(cells) == 0,
    decreases cells.len(),
{
    if cells.len() > 0 {
        lemma_cell_total_zero(cells.drop_last());
    }
}

/// Every raster reduces to a score between 0 and 255.
pub proof fn lemma_raster_brightness_in_range(min_x: int, min_y: int, samples: Seq<RasterSample>)
    ensures
        0 <= raster_brightness(min_x, min_y, samples) <= 255,
{
    let cells = write_samples(blank_canvas(), min_x, min_y, samples);
    lemma_write_samples_len(blank_canvas(), min_x, min_y, samples);
    lemma_write_samples_bound(blank_canvas(), min_x, min_y, samples);
    lemma_cell_total_bound(cells, 0x00FF_0000);
    lemma_div_pos_is_pos(cell_total(cells), BRIGHTNESS_DENOM as int);
    lemma_multiply_divide_le(cell_total(cells), 163_840_000, 255);
}

/// Samples that all carry zero coverage leave every cell untouched: a
/// glyph with no visible ink scores zero however many pixels its box
/// spans.
pub proof fn lemma_blank_raster_scores_zero(min_x: int, min_y: int, samples: Seq<RasterSample>)
    requires
        forall|i: int| 0 <= i < samples.len() ==> scaled_coverage(#[trigger] samples[i].2) == 0,
    ensures
        raster_brightness(min_x, min_y, samples) == 0,
{
    lemma_write_zero_samples(blank_canvas(), min_x, min_y, samples);
    lemma_cell_total_zero(write_samples(blank_canvas(), min_x, min_y, samples));
}

/// Writing samples of zero coverage onto an all-zero canvas keeps it all
/// zero.
proof fn lemma_write_zero_samples(cells: Seq<u32>, min_x: int, min_y: int, samples: Seq<RasterSample>)
    requires
        cells.len() == 2500,
        forall|i: int| 0 <= i < cells.len() ==> #[trigger] cells[i] == 0,
        forall|i: int| 0 <= i < samples.len() ==> scaled_coverage(#[trigger] samples[i].2) == 0,
    ensures
        forall|i: int| 0 <= i < write_samples(cells, min_x, min_y, samples).len()
            ==> #[trigger] write_samples(cells, min_x, min_y, samples)[i] == 0,
    decreases samples.len(),
{
    if samples.len() > 0 {
        lemma_write_samples_len(cells, min_x, min_y, samples.drop_last());
        lemma_write_zero_samples(cells, min_x, min_y, samples.drop_last());
        assert(samples[samples.len() - 1] == samples.last());
    }
}

/// Samples that all land outside the canvas are all discarded: a glyph
/// whose bounding box lies wholly off the canvas scores zero.
pub proof fn lemma_offscreen_raster_scores_zero(min_x: int, min_y: int, samples: Seq<RasterSample>)
    requires
        forall|i: int| 0 <= i < samples.len() ==> !sample_in_canvas(min_x, min_y, #[trigger] samples[i]),
    ensures
        raster_brightness(min_x, min_y, samples) == 0,
{
    lemma_write_offscreen_samples(blank_canvas(), min_x, min_y, samples);
    assert(forall|i: int| 0 <= i < blank_canvas().len() ==> #[trigger] blank_canvas()[i] == 0);
    lemma_cell_total_zero(blank_canvas());
}

/// Samples that all land outside the canvas leave it exactly as it was.
proof fn lemma_write_offscreen_samples(cells: Seq<u32>, min_x: int, min_y: int, samples: Seq<RasterSample>)
    requires
        forall|i: int| 0 <= i < samples.len() ==> !sample_in_canvas(min_x, min_y, #[trigger] samples[i]),
    ensures
        write_samples(cells, min_x, min_y, samples) == cells,
    decreases samples.len(),
{
    if samples.len() > 0 {
        lemma_write_offscreen_samples(cells, min_x, min_y, samples.drop_last());
        assert(samples[samples.len() - 1] == samples.last());
    }
}

/// Rasterizes a glyph's samples onto a blank canvas and reduces the canvas
/// to its brightness score: translation by the bounding box origin,
/// clipping to the canvas, and truncated averaging, exactly as
/// `raster_brightness` states.
pub fn brightness_from_raster(min_x: i32, min_y: i32, samples: &Vec<RasterSample>) -> (brightness: i32)
    ensures
        brightness == raster_brightness(min_x as int, min_y as int, samples@),
        0 <= brightness <= 255,
{
    let mut cells: Vec<u32> = Vec::new();
    while cells.len() < CANVAS_CELLS
        invariant
            cells@.len() <= 2500,
            forall|j: int| 0 <= j < cells@.len() ==> #[trigger] cells@[j] == 0,
        decreases 2500 - cells@.len(),
    {
        cells.push(0);
    }
    proof {
        assert(cells@ =~= blank_canvas());
    }

    let mut i: usize = 0;
    while i < samples.len()
        invariant
            i <= samples@.len(),
            cells@ == write_samples(blank_canvas(), min_x as int, min_y as int, samples@.subrange(0, i as int)),
            cells@.len() == 2500,
            forall|j: int| 0 <= j < cells@.len() ==> #[trigger] cells@[j] <= FULL_COVERAGE,
        decreases samples@.len() - i,
    {
        let s = samples[i];
        let col: i64 = s.0 as i64 + min_x as i64;
        let row: i64 = s.1 as i64 + min_y as i64;
        proof {
            assert(samples@.subrange(0, i + 1).drop_last() =~= samples@.subrange(0, i as int));
            assert(samples@.subrange(0, i + 1).last() == samples@[i as int]);
        }
        if 0 <= col && col < 50 {
            if 0 <= row && row < 50 {
                let index: usize = col as usize + 50 * (row as usize);
                cells.set(index, coverage_units(s.2));
            }
        }
        i = i + 1;
    }
    proof {
        assert(samples@.subrange(0, samples@.len() as int) =~= samples@);
    }

    let mut total: u64 = 0;
    let mut j: usize = 0;
    while j < cells.len()
        invariant
            j <= cells@.len(),
            cells@.len() == 2500,
            forall|k: int| 0 <= k < cells@.len() ==> #[trigger] cells@[k] <= FULL_COVERAGE,
            total == cell_total(cells@.subrange(0, j as int)),
        decreases cells@.len() - j,
    {
        proof {
            assert(cells@.subrange(0, j + 1).drop_last() =~= cells@.subrange(0, j as int));
            assert(cells@.subrange(0, j + 1).last() == cells@[j as int]);
            lemma_cell_total_bound(cells@.subrange(0, j as int), 0x00FF_0000);
        }
        total = total + cells[j] as u64;
        j = j + 1;
    }
    proof {
        assert(cells@.subrange(0, cells@.len() as int) =~= cells@);
        lemma_cell_total_bound(cells@, 0x00FF_0000);
        lemma_div_pos_is_pos(total as int, BRIGHTNESS_DENOM as int);
        lemma_multiply_divide_le(total as int, 163_840_000, 255);
        assert(BRIGHTNESS_DENOM as int == 163_840_000);
    }
    (total / BRIGHTNESS_DENOM) as i32
}

} // verus!
