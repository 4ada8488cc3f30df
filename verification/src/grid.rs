//! The integer grids that the bitstream reader hands over: quantized
//! coefficients and correlation factors.  They stay what they are,
//! `jxl_grid::SimpleGrid<i32>`; this module says what the stages read
//! from them.
use vstd::prelude::*;
use jxl_grid::SimpleGrid;
use crate::plane::{cell_index, lemma_cell_index};

verus! {

#[verifier::external_type_specification]
#[verifier::external_body]
#[verifier::reject_recursive_types(S)]
pub struct ExSimpleGrid<S>(SimpleGrid<S>);

/// Number of columns of a grid.
pub uninterp spec fn grid_width(g: SimpleGrid<i32>) -> nat;

/// Number of rows of a grid.
pub uninterp spec fn grid_height(g: SimpleGrid<i32>) -> nat;

/// The samples of a grid in raster order.
pub uninterp spec fn grid_samples(g: SimpleGrid<i32>) -> Seq<i32>;

/// Whether `(x, y)` names a cell of the grid.
pub open spec fn grid_has(g: SimpleGrid<i32>, x: int, y: int) -> bool {
    0 <= x < grid_width(g) && 0 <= y < grid_height(g)
}

/// The sample in column `x` of row `y`.
pub open spec fn grid_at(g: SimpleGrid<i32>, x: int, y: int) -> i32 {
    grid_samples(g)[cell_index(grid_width(g) as int, x, y)]
}

/// Whether the grid holds exactly one sample per cell.  Every grid that the
/// bitstream reader builds does; the stages check it before they read a
/// cell by its position.
pub open spec fn grid_shaped(g: SimpleGrid<i32>) -> bool {
    grid_samples(g).len() == grid_width(g) * grid_height(g)
}

/// Same dimensions, whatever the samples.
pub open spec fn grids_same_shape(g: SimpleGrid<i32>, other: SimpleGrid<i32>) -> bool {
    grid_width(g) == grid_width(other) && grid_height(g) == grid_height(other)
}

/// Calls `SimpleGrid::width`.
///
/// Trusted: the result is the grid's number of columns.
#[verifier::external_body]
pub(crate) fn width_of(g: &SimpleGrid<i32>) -> (w: usize)
    ensures
        w == grid_width(*g),
{
    g.width()
}

/// Calls `SimpleGrid::height`.
///
/// Trusted: the result is the grid's number of rows.
#[verifier::external_body]
pub(crate) fn height_of(g: &SimpleGrid<i32>) -> (h: usize)
    ensures
        h == grid_height(*g),
{
    g.height()
}

/// Calls `SimpleGrid::buf`.
///
/// Trusted: the slice holds the samples in raster order.
#[verifier::external_body]
pub(crate) fn samples_of(g: &SimpleGrid<i32>) -> (samples: &[i32])
    ensures
        samples@ == grid_samples(*g),
{
    g.buf()
}

/// Whether the grid holds exactly one sample per cell.
pub fn is_shaped(g: &SimpleGrid<i32>) -> (r: bool)
    ensures
        r == grid_shaped(*g),
{
    let cells: usize = samples_of(g).len();
    match width_of(g).checked_mul(height_of(g)) {
        Some(product) => product == cells,
        None => false,
    }
}

/// The sample in column `x` of row `y` of a grid that has such a cell.
pub(crate) fn cell_of(g: &SimpleGrid<i32>, x: usize, y: usize) -> (r: i32)
    requires
        grid_shaped(*g),
        grid_has(*g, x as int, y as int),
    ensures
        r == grid_at(*g, x as int, y as int),
{
    let samples = samples_of(g);
    let width: usize = width_of(g);
    let cells: usize = samples.len();
    proof {
        lemma_cell_index(
            grid_width(*g) as int,
            grid_height(*g) as int,
            x as int,
            y as int,
        );
    }
    samples[y * width + x]
}

} // verus!
