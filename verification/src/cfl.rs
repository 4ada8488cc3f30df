//! Chroma-from-luma prediction: X and B are corrected by a multiple of Y.
use vstd::prelude::*;
use jxl_grid::SimpleGrid;
use crate::error::Error;
use crate::grid::{
    cell_of, grid_at, grid_height, grid_shaped, grid_width, height_of, is_shaped, width_of,
};
use crate::lf::Xyb;
use crate::plane::{Plane, Region};

verus! {

/// Side of the square of cells that share one pair of correlation factors.
pub const FACTOR_TILE: usize = 64;

/// Least factor that the grids of a block may hold: every factor is
/// reduced by 128, and the difference must fit 32 signed bits.
pub const LEAST_FACTOR: i32 = -0x7fff_ff80;

/// How far a low-frequency correlation factor lies from its neutral value
/// of 128.
pub open spec fn spec_factor_offset(factor: u32) -> int {
    factor - 128
}

/// The offset of a low-frequency correlation factor from 128.  Fails with
/// `InvalidCoefficient` when the factor does not fit 32 signed bits.
pub fn factor_offset(factor: u32) -> (r: Result<i32, Error>)
    ensures
        r is Ok <==> factor <= i32::MAX,
        r is Ok ==> r.unwrap() == spec_factor_offset(factor),
        r is Err ==> r == Err::<i32, Error>(Error::InvalidCoefficient),
{
    if factor > i32::MAX as u32 {
        Err(Error::InvalidCoefficient)
    } else {
        Ok(factor as i32 - 128)
    }
}

/// One prediction step: `correlation` turns the two factor offsets into the
/// multipliers `kx` and `kb`, and `predict` turns the multipliers and the
/// three samples into the new X and B samples `x2` and `b2`.
pub open spec fn links<T, K: Fn(i32, i32) -> (T, T), P: Fn(T, T, T, T, T) -> (T, T)>(
    correlation: K,
    predict: P,
    x_offset: i32,
    b_offset: i32,
    kx: T,
    kb: T,
    x: T,
    y: T,
    b: T,
    x2: T,
    b2: T,
) -> bool {
    correlation.ensures((x_offset, b_offset), (kx, kb)) && predict.ensures(
        (kx, kb, x, y, b),
        (x2, b2),
    )
}

/// `after` is `before` with every X and B sample predicted from the Y sample
/// at the same position, with the multipliers `kx` and `kb`.  The three
/// planes hold equally many samples, and Y is as it was.
pub open spec fn lf_predicted<T, P: Fn(T, T, T, T, T) -> (T, T)>(
    before: Xyb<T>,
    predict: P,
    kx: T,
    kb: T,
    after: Xyb<T>,
) -> bool {
    &&& after.x.same_shape(before.x) && after.y == before.y && after.b.same_shape(before.b)
    &&& before.y@.len() == before.x@.len() && before.b@.len() == before.x@.len()
    &&& after.x@.len() == before.x@.len() && after.b@.len() == before.b@.len()
    &&& forall|i: int|
        #![trigger after.x@[i]]
        #![trigger after.b@[i]]
        0 <= i < before.x@.len() ==> predict.ensures(
            (kx, kb, before.x@[i], before.y@[i], before.b@[i]),
            (after.x@[i], after.b@[i]),
        )
}

/// Predicts the low-frequency X and B planes from the Y plane.
///
/// `correlation` is called once, with the offsets of `x_factor_lf` and
/// `b_factor_lf` from 128, and returns the two multipliers.  `predict` is
/// then called for every position with the multipliers and the X, Y and B
/// samples there, and returns the new X and B samples.
///
/// Fails, changing nothing, with `InvalidCoefficient` when a factor does
/// not fit 32 signed bits, and with `ShapeMismatch` unless the three planes
/// have one shape.
pub fn chroma_from_luma_lf<T: Copy, K: Fn(i32, i32) -> (T, T), P: Fn(T, T, T, T, T) -> (T, T)>(
    coeff_xyb: &mut Xyb<T>,
    x_factor_lf: u32,
    b_factor_lf: u32,
    correlation: K,
    predict: P,
) -> (r: Result<(), Error>)
    requires
        forall|fx: i32, fb: i32| correlation.requires((fx, fb)),
        forall|kx: T, kb: T, x: T, y: T, b: T| predict.requires((kx, kb, x, y, b)),
    ensures
        r == Err::<(), Error>(Error::InvalidCoefficient) <==> x_factor_lf > i32::MAX || b_factor_lf
            > i32::MAX,
        r == Err::<(), Error>(Error::ShapeMismatch) <==> x_factor_lf <= i32::MAX && b_factor_lf
            <= i32::MAX && !(old(coeff_xyb).y.same_shape(old(coeff_xyb).x) && old(
            coeff_xyb,
        ).b.same_shape(old(coeff_xyb).x)),
        r is Err ==> *final(coeff_xyb) == *old(coeff_xyb) && (r == Err::<(), Error>(
            Error::InvalidCoefficient,
        ) || r == Err::<(), Error>(Error::ShapeMismatch)),
        r is Ok ==> exists|kx: T, kb: T|
            correlation.ensures(
                (
                    spec_factor_offset(x_factor_lf) as i32,
                    spec_factor_offset(b_factor_lf) as i32,
                ),
                (kx, kb),
            ) && #[trigger] lf_predicted(*old(coeff_xyb), predict, kx, kb, *final(coeff_xyb)),
{
    let x_offset: i32 = match factor_offset(x_factor_lf) {
        Ok(o) => o,
        Err(e) => {
            return Err(e);
        },
    };
    let b_offset: i32 = match factor_offset(b_factor_lf) {
        Ok(o) => o,
        Err(e) => {
            return Err(e);
        },
    };
    let width: usize = coeff_xyb.x.width();
    let height: usize = coeff_xyb.x.height();
    if coeff_xyb.y.width() != width || coeff_xyb.y.height() != height || coeff_xyb.b.width()
        != width || coeff_xyb.b.height() != height {
        return Err(Error::ShapeMismatch);
    }
    let n: usize = coeff_xyb.x.len();
    let ghost before = *coeff_xyb;
    let (kx, kb) = correlation(x_offset, b_offset);
    let mut i: usize = 0;
    while i < n
        invariant
            i <= n,
            n == before.x@.len(),
            before.y@.len() == n,
            before.b@.len() == n,
            coeff_xyb.x.same_shape(before.x),
            coeff_xyb.b.same_shape(before.b),
            coeff_xyb.y == before.y,
            coeff_xyb.x@.len() == n,
            coeff_xyb.b@.len() == n,
            forall|kx: T, kb: T, x: T, y: T, b: T| predict.requires((kx, kb, x, y, b)),
            forall|k: int|
                #![trigger coeff_xyb.x@[k]]
                #![trigger coeff_xyb.b@[k]]
                0 <= k < i ==> predict.ensures(
                    (kx, kb, before.x@[k], before.y@[k], before.b@[k]),
                    (coeff_xyb.x@[k], coeff_xyb.b@[k]),
                ),
            forall|k: int| i <= k < n ==> #[trigger] coeff_xyb.x@[k] == before.x@[k],
            forall|k: int| i <= k < n ==> #[trigger] coeff_xyb.b@[k] == before.b@[k],
        decreases n - i,
    {
        let (x2, b2) = predict(
            kx,
            kb,
            coeff_xyb.x.sample(i),
            coeff_xyb.y.sample(i),
            coeff_xyb.b.sample(i),
        );
        coeff_xyb.x.set_sample(i, x2);
        coeff_xyb.b.set_sample(i, b2);
        i += 1;
    }
    assert(lf_predicted(before, predict, kx, kb, *coeff_xyb));
    Ok(())
}

/// With both factors at 128 the offsets handed to `correlation` are zero.
/// If the multipliers it returns for zero offsets make `predict` hand back
/// the X and B samples it was given, prediction changes no sample.
pub proof fn lemma_neutral_factors_keep_chroma<
    T,
    K: Fn(i32, i32) -> (T, T),
    P: Fn(T, T, T, T, T) -> (T, T),
>(before: Xyb<T>, correlation: K, predict: P, kx: T, kb: T, after: Xyb<T>)
    requires
        correlation.ensures(
            (spec_factor_offset(128) as i32, spec_factor_offset(128) as i32),
            (kx, kb),
        ),
        lf_predicted(before, predict, kx, kb, after),
        forall|k1: T, k2: T, x: T, y: T, b: T, x2: T, b2: T|
            correlation.ensures((0i32, 0i32), (k1, k2)) && #[trigger] predict.ensures(
                (k1, k2, x, y, b),
                (x2, b2),
            ) ==> x2 == x && b2 == b,
    ensures
        after.x@ == before.x@,
        after.y@ == before.y@,
        after.b@ == before.b@,
{
    assert forall|i: int| 0 <= i < before.x@.len() implies after.x@[i] == before.x@[i]
        && after.b@[i] == before.b@[i] by {
        assert(predict.ensures(
            (kx, kb, before.x@[i], before.y@[i], before.b@[i]),
            (after.x@[i], after.b@[i]),
        ));
    }
    assert(after.x@ =~= before.x@);
    assert(after.b@ =~= before.b@);
}

/// Column or row of the factor grids that holds the factors of the cell at
/// image coordinate `position`.
pub open spec fn factor_tile(position: int) -> int {
    position / (FACTOR_TILE as int)
}

/// The two factors of coefficient `(cx, cy)` of a block whose corner lies
/// at `origin`: those of the 64x64 tile that holds the image cell
/// `(origin.0 + cx, origin.1 + cy)`.
pub open spec fn cell_factors(
    origin: (int, int),
    factors: (SimpleGrid<i32>, SimpleGrid<i32>),
    cx: int,
    cy: int,
) -> (i32, i32) {
    let fx = factor_tile(origin.0 + cx);
    let fy = factor_tile(origin.1 + cy);
    (grid_at(factors.0, fx, fy), grid_at(factors.1, fx, fy))
}

/// How far a high-frequency correlation factor lies from its neutral value
/// of 128.
pub open spec fn spec_hf_factor_offset(factor: i32) -> int {
    factor - 128
}

/// Both factors of coefficient `(cx, cy)` have an offset from 128 that fits
/// 32 signed bits.
pub open spec fn cell_factors_ok(
    origin: (int, int),
    factors: (SimpleGrid<i32>, SimpleGrid<i32>),
    cx: int,
    cy: int,
) -> bool {
    let f = cell_factors(origin, factors, cx, cy);
    spec_hf_factor_offset(f.0) >= i32::MIN && spec_hf_factor_offset(f.1) >= i32::MIN
}

/// Coefficient `(cx, cy)` of the block has been predicted: its X and B
/// samples in `after` are what the prediction step makes of the samples in
/// `before`, with the offsets from 128 of the coefficient's two factors.
pub open spec fn hf_cell_predicted<
    T,
    K: Fn(i32, i32) -> (T, T),
    P: Fn(T, T, T, T, T) -> (T, T),
>(
    before: Xyb<T>,
    regions: (Region, Region, Region),
    origin: (int, int),
    factors: (SimpleGrid<i32>, SimpleGrid<i32>),
    correlation: K,
    predict: P,
    after: Xyb<T>,
    cx: int,
    cy: int,
) -> bool {
    let f = cell_factors(origin, factors, cx, cy);
    exists|kx: T, kb: T| #[trigger]
        links(
            correlation,
            predict,
            spec_hf_factor_offset(f.0) as i32,
            spec_hf_factor_offset(f.1) as i32,
            kx,
            kb,
            before.x.at(regions.0.left + cx, regions.0.top + cy),
            before.y.at(regions.1.left + cx, regions.1.top + cy),
            before.b.at(regions.2.left + cx, regions.2.top + cy),
            after.x.at(regions.0.left + cx, regions.0.top + cy),
            after.b.at(regions.2.left + cx, regions.2.top + cy),
        )
}

/// Whether the block and the factor grids fit together: the Y and B regions
/// are at least as large as the X region, each region lies inside its
/// plane, and both factor grids hold one factor per tile and have a tile
/// for every cell of the block.
pub open spec fn hf_shape_ok<T>(
    planes: Xyb<T>,
    regions: (Region, Region, Region),
    origin: (int, int),
    factors: (SimpleGrid<i32>, SimpleGrid<i32>),
) -> bool {
    let width = regions.0.width;
    let height = regions.0.height;
    &&& regions.1.width >= width && regions.1.height >= height
    &&& regions.2.width >= width && regions.2.height >= height
    &&& regions.0.within(planes.x.spec_width(), planes.x.spec_height())
    &&& regions.1.within(planes.y.spec_width(), planes.y.spec_height())
    &&& regions.2.within(planes.b.spec_width(), planes.b.spec_height())
    &&& width > 0 && height > 0 ==> {
        &&& grid_shaped(factors.0) && grid_shaped(factors.1)
        &&& origin.0 + width <= usize::MAX
        &&& origin.1 + height <= usize::MAX
        &&& factor_tile(origin.0 + width - 1) < grid_width(factors.0)
        &&& factor_tile(origin.1 + height - 1) < grid_height(factors.0)
        &&& factor_tile(origin.0 + width - 1) < grid_width(factors.1)
        &&& factor_tile(origin.1 + height - 1) < grid_height(factors.1)
    }
}

/// Whether every factor that the block uses has an offset from 128 that
/// fits 32 signed bits.
pub open spec fn hf_factors_ok(
    regions: (Region, Region, Region),
    origin: (int, int),
    factors: (SimpleGrid<i32>, SimpleGrid<i32>),
) -> bool {
    forall|cx: int, cy: int|
        regions.0.has(cx, cy) ==> #[trigger] cell_factors_ok(origin, factors, cx, cy)
}

/// What the call is refused for, if anything: a block and factor grids that
/// do not fit together, or a factor out of range, in this order.
pub open spec fn cfl_hf_refusal<T>(
    planes: Xyb<T>,
    regions: (Region, Region, Region),
    origin: (int, int),
    factors: (SimpleGrid<i32>, SimpleGrid<i32>),
) -> Option<Error> {
    if !hf_shape_ok(planes, regions, origin, factors) {
        Some(Error::ShapeMismatch)
    } else if !hf_factors_ok(regions, origin, factors) {
        Some(Error::InvalidCoefficient)
    } else {
        None
    }
}

/// Whether the plane cell `(px, py)` belongs to the block that starts at
/// the corner of `region` and has the size of `size`.
pub open spec fn in_block(region: Region, size: Region, px: int, py: int) -> bool {
    region.left <= px < region.left + size.width && region.top <= py < region.top + size.height
}

/// `after` is `before` with the block predicted: every coefficient of the
/// block is predicted, the Y plane is as it was, and no X or B sample
/// outside the block changes.  The block has the size of the X region and
/// starts at the corner of each plane's region.
pub open spec fn hf_predicted<T, K: Fn(i32, i32) -> (T, T), P: Fn(T, T, T, T, T) -> (T, T)>(
    before: Xyb<T>,
    regions: (Region, Region, Region),
    origin: (int, int),
    factors: (SimpleGrid<i32>, SimpleGrid<i32>),
    correlation: K,
    predict: P,
    after: Xyb<T>,
) -> bool {
    &&& after.x.same_shape(before.x) && after.y == before.y && after.b.same_shape(before.b)
    &&& after.x.shaped() && after.b.shaped()
    &&& forall|cx: int, cy: int|
        regions.0.has(cx, cy) ==> #[trigger] hf_cell_predicted(
            before,
            regions,
            origin,
            factors,
            correlation,
            predict,
            after,
            cx,
            cy,
        )
    &&& forall|px: int, py: int|
        before.x.has(px, py) && !regions.0.covers(px, py) ==> #[trigger] after.x.at(px, py)
            == before.x.at(px, py)
    &&& forall|px: int, py: int|
        before.b.has(px, py) && !in_block(regions.2, regions.0, px, py) ==> #[trigger] after.b.at(
            px,
            py,
        ) == before.b.at(px, py)
}

/// The offset of a high-frequency correlation factor from 128.  Fails with
/// `InvalidCoefficient` when the offset does not fit 32 signed bits.
pub fn hf_factor_offset(factor: i32) -> (r: Result<i32, Error>)
    ensures
        r is Ok <==> spec_hf_factor_offset(factor) >= i32::MIN,
        r is Ok ==> r.unwrap() == spec_hf_factor_offset(factor),
        r is Err ==> r == Err::<i32, Error>(Error::InvalidCoefficient),
{
    if factor < LEAST_FACTOR {
        Err(Error::InvalidCoefficient)
    } else {
        Ok(factor - 128)
    }
}

/// Whether every factor that a block of `width` by `height` coefficients
/// uses has an offset that fits.
fn factors_in_range(
    width: usize,
    height: usize,
    lf_left: usize,
    lf_top: usize,
    x_from_y: &SimpleGrid<i32>,
    b_from_y: &SimpleGrid<i32>,
) -> (r: bool)
    requires
        width > 0 && height > 0 ==> {
            &&& grid_shaped(*x_from_y) && grid_shaped(*b_from_y)
            &&& lf_left + width <= usize::MAX
            &&& lf_top + height <= usize::MAX
            &&& factor_tile(lf_left + width - 1) < grid_width(*x_from_y)
            &&& factor_tile(lf_top + height - 1) < grid_height(*x_from_y)
            &&& factor_tile(lf_left + width - 1) < grid_width(*b_from_y)
            &&& factor_tile(lf_top + height - 1) < grid_height(*b_from_y)
        },
    ensures
        r == (forall|cx: int, cy: int|
            0 <= cx < width && 0 <= cy < height ==> #[trigger] cell_factors_ok(
                (lf_left as int, lf_top as int),
                (*x_from_y, *b_from_y),
                cx,
                cy,
            )),
{
    let ghost origin = (lf_left as int, lf_top as int);
    let ghost factors = (*x_from_y, *b_from_y);
    let mut cy: usize = 0;
    while cy < height
        invariant
            cy <= height,
            origin == (lf_left as int, lf_top as int),
            factors == (*x_from_y, *b_from_y),
            width > 0 && height > 0 ==> {
                &&& grid_shaped(*x_from_y) && grid_shaped(*b_from_y)
                &&& lf_left + width <= usize::MAX
                &&& lf_top + height <= usize::MAX
                &&& factor_tile(lf_left + width - 1) < grid_width(*x_from_y)
                &&& factor_tile(lf_top + height - 1) < grid_height(*x_from_y)
                &&& factor_tile(lf_left + width - 1) < grid_width(*b_from_y)
                &&& factor_tile(lf_top + height - 1) < grid_height(*b_from_y)
            },
            forall|x: int, y: int|
                0 <= x < width && 0 <= y < cy ==> #[trigger] cell_factors_ok(origin, factors, x, y),
        decreases height - cy,
    {
        let mut cx: usize = 0;
        while cx < width
            invariant
                cx <= width,
                cy < height,
                origin == (lf_left as int, lf_top as int),
                factors == (*x_from_y, *b_from_y),
                width > 0 && height > 0 ==> {
                    &&& grid_shaped(*x_from_y) && grid_shaped(*b_from_y)
                    &&& lf_left + width <= usize::MAX
                    &&& lf_top + height <= usize::MAX
                    &&& factor_tile(lf_left + width - 1) < grid_width(*x_from_y)
                    &&& factor_tile(lf_top + height - 1) < grid_height(*x_from_y)
                    &&& factor_tile(lf_left + width - 1) < grid_width(*b_from_y)
                    &&& factor_tile(lf_top + height - 1) < grid_height(*b_from_y)
                },
                forall|x: int, y: int|
                    0 <= x < width && 0 <= y < cy ==> #[trigger] cell_factors_ok(
                        origin,
                        factors,
                        x,
                        y,
                    ),
                forall|x: int| 0 <= x < cx ==> #[trigger] cell_factors_ok(origin, factors, x, cy as int),
            decreases width - cx,
        {
            let fx: usize = (lf_left + cx) / FACTOR_TILE;
            let fy: usize = (lf_top + cy) / FACTOR_TILE;
            let x_factor: i32 = cell_of(x_from_y, fx, fy);
            let b_factor: i32 = cell_of(b_from_y, fx, fy);
            if x_factor < LEAST_FACTOR || b_factor < LEAST_FACTOR {
                assert(!cell_factors_ok(origin, factors, cx as int, cy as int));
                return false;
            }
            assert(cell_factors_ok(origin, factors, cx as int, cy as int));
            cx += 1;
        }
        cy += 1;
    }
    true
}

/// Predicts the X and B coefficients of one block from its Y coefficients.
///
/// The block occupies `x_region`, `y_region` and `b_region` of the three
/// coefficient planes, and its corner lies at `(lf_left, lf_top)` of the
/// image.  The correlation factors change from one 64x64 tile of the image
/// to the next: for the coefficient in column `cx` and row `cy` of the block
/// they are read from `x_from_y` and `b_from_y` at column
/// `(lf_left + cx) / 64` and row `(lf_top + cy) / 64`, and `correlation`
/// gets their offsets from 128, as in [`chroma_from_luma_lf`].  `predict`
/// then gets the multipliers and the three samples.  The block has the size
/// of `x_region`; of a larger `y_region` or `b_region` only that many
/// columns and rows are used.
///
/// Fails, changing nothing, with `ShapeMismatch` unless the block and the
/// factor grids fit together, and with `InvalidCoefficient` when a factor
/// that the block uses has an offset that does not fit 32 signed bits.
pub fn chroma_from_luma_hf<T: Copy, K: Fn(i32, i32) -> (T, T), P: Fn(T, T, T, T, T) -> (T, T)>(
    coeff_xyb: &mut Xyb<T>,
    x_region: Region,
    y_region: Region,
    b_region: Region,
    lf_left: usize,
    lf_top: usize,
    x_from_y: &SimpleGrid<i32>,
    b_from_y: &SimpleGrid<i32>,
    correlation: K,
    predict: P,
) -> (r: Result<(), Error>)
    requires
        forall|fx: i32, fb: i32| correlation.requires((fx, fb)),
        forall|kx: T, kb: T, x: T, y: T, b: T| predict.requires((kx, kb, x, y, b)),
    ensures
        match cfl_hf_refusal(
            *old(coeff_xyb),
            (x_region, y_region, b_region),
            (lf_left as int, lf_top as int),
            (*x_from_y, *b_from_y),
        ) {
            Some(e) => r == Err::<(), Error>(e) && *final(coeff_xyb) == *old(coeff_xyb),
            None => r is Ok,
        },
        r is Ok ==> hf_predicted(
            *old(coeff_xyb),
            (x_region, y_region, b_region),
            (lf_left as int, lf_top as int),
            (*x_from_y, *b_from_y),
            correlation,
            predict,
            *final(coeff_xyb),
        ),
{
    let width: usize = x_region.width;
    let height: usize = x_region.height;
    let ghost regions = (x_region, y_region, b_region);
    let ghost origin = (lf_left as int, lf_top as int);
    let ghost factors = (*x_from_y, *b_from_y);
    if y_region.width < width || y_region.height < height || b_region.width < width
        || b_region.height < height {
        return Err(Error::ShapeMismatch);
    }
    if !coeff_xyb.x.contains(&x_region) || !coeff_xyb.y.contains(&y_region)
        || !coeff_xyb.b.contains(&b_region) {
        return Err(Error::ShapeMismatch);
    }
    let x_width: usize = coeff_xyb.x.width();
    let x_height: usize = coeff_xyb.x.height();
    let y_width: usize = coeff_xyb.y.width();
    let y_height: usize = coeff_xyb.y.height();
    let b_width: usize = coeff_xyb.b.width();
    let b_height: usize = coeff_xyb.b.height();
    let fx_width: usize = width_of(x_from_y);
    let fx_height: usize = height_of(x_from_y);
    let fb_width: usize = width_of(b_from_y);
    let fb_height: usize = height_of(b_from_y);
    if width > 0 && height > 0 {
        if lf_left > usize::MAX - width || lf_top > usize::MAX - height {
            return Err(Error::ShapeMismatch);
        }
        if !is_shaped(x_from_y) || !is_shaped(b_from_y) {
            return Err(Error::ShapeMismatch);
        }
        let last_fx: usize = (lf_left + width - 1) / FACTOR_TILE;
        let last_fy: usize = (lf_top + height - 1) / FACTOR_TILE;
        if last_fx >= fx_width || last_fy >= fx_height || last_fx >= fb_width || last_fy
            >= fb_height {
            return Err(Error::ShapeMismatch);
        }
    }
    if !factors_in_range(width, height, lf_left, lf_top, x_from_y, b_from_y) {
        return Err(Error::InvalidCoefficient);
    }
    let ghost before = *coeff_xyb;
    let mut cy: usize = 0;
    while cy < height
        invariant
            cy <= height,
            hf_factors_ok(regions, origin, factors),
            width == x_region.width,
            height == x_region.height,
            regions == (x_region, y_region, b_region),
            origin == (lf_left as int, lf_top as int),
            factors == (*x_from_y, *b_from_y),
            hf_shape_ok(before, regions, origin, factors),
            x_width == before.x.spec_width() && x_height == before.x.spec_height(),
            y_width == before.y.spec_width() && y_height == before.y.spec_height(),
            b_width == before.b.spec_width() && b_height == before.b.spec_height(),
            fx_width == grid_width(*x_from_y) && fx_height == grid_height(*x_from_y),
            fb_width == grid_width(*b_from_y) && fb_height == grid_height(*b_from_y),
            coeff_xyb.x.same_shape(before.x) && coeff_xyb.y == before.y && coeff_xyb.b.same_shape(
                before.b,
            ),
            coeff_xyb.x.shaped() && coeff_xyb.b.shaped(),
            forall|fx: i32, fb: i32| correlation.requires((fx, fb)),
            forall|kx: T, kb: T, x: T, y: T, b: T| predict.requires((kx, kb, x, y, b)),
            forall|x: int, y: int|
                0 <= x < width && 0 <= y < cy ==> #[trigger] hf_cell_predicted(
                    before,
                    regions,
                    origin,
                    factors,
                    correlation,
                    predict,
                    *coeff_xyb,
                    x,
                    y,
                ),
            forall|px: int, py: int|
                before.x.has(px, py) && !(x_region.covers(px, py) && py < x_region.top + cy)
                    ==> #[trigger] coeff_xyb.x.at(px, py) == before.x.at(px, py),
            forall|px: int, py: int|
                before.b.has(px, py) && !(b_region.covers(px, py) && py < b_region.top + cy
                    && px < b_region.left + width) ==> #[trigger] coeff_xyb.b.at(px, py)
                    == before.b.at(px, py),
        decreases height - cy,
    {
        let mut cx: usize = 0;
        while cx < width
            invariant
                cx <= width,
                cy < height,
                hf_factors_ok(regions, origin, factors),
                width == x_region.width,
                height == x_region.height,
                regions == (x_region, y_region, b_region),
                origin == (lf_left as int, lf_top as int),
                factors == (*x_from_y, *b_from_y),
                hf_shape_ok(before, regions, origin, factors),
                x_width == before.x.spec_width() && x_height == before.x.spec_height(),
                y_width == before.y.spec_width() && y_height == before.y.spec_height(),
                b_width == before.b.spec_width() && b_height == before.b.spec_height(),
                fx_width == grid_width(*x_from_y) && fx_height == grid_height(*x_from_y),
                fb_width == grid_width(*b_from_y) && fb_height == grid_height(*b_from_y),
                coeff_xyb.x.same_shape(before.x) && coeff_xyb.y == before.y
                    && coeff_xyb.b.same_shape(before.b),
                coeff_xyb.x.shaped() && coeff_xyb.b.shaped(),
                forall|fx: i32, fb: i32| correlation.requires((fx, fb)),
                forall|kx: T, kb: T, x: T, y: T, b: T| predict.requires((kx, kb, x, y, b)),
                forall|x: int, y: int|
                    0 <= x < width && 0 <= y < cy ==> #[trigger] hf_cell_predicted(
                        before,
                        regions,
                        origin,
                        factors,
                        correlation,
                        predict,
                        *coeff_xyb,
                        x,
                        y,
                    ),
                forall|x: int|
                    0 <= x < cx ==> #[trigger] hf_cell_predicted(
                        before,
                        regions,
                        origin,
                        factors,
                        correlation,
                        predict,
                        *coeff_xyb,
                        x,
                        cy as int,
                    ),
                forall|px: int, py: int|
                    before.x.has(px, py) && !(x_region.covers(px, py) && (py < x_region.top + cy
                        || (py == x_region.top + cy && px < x_region.left + cx)))
                        ==> #[trigger] coeff_xyb.x.at(px, py) == before.x.at(px, py),
                forall|px: int, py: int|
                    before.b.has(px, py) && !(b_region.covers(px, py) && px < b_region.left + width
                        && (py < b_region.top + cy || (py == b_region.top + cy && px
                        < b_region.left + cx))) ==> #[trigger] coeff_xyb.b.at(px, py)
                        == before.b.at(px, py),
            decreases width - cx,
        {
            let ghost earlier = *coeff_xyb;
            let fx: usize = (lf_left + cx) / FACTOR_TILE;
            let fy: usize = (lf_top + cy) / FACTOR_TILE;
            let x_factor: i32 = cell_of(x_from_y, fx, fy);
            let b_factor: i32 = cell_of(b_from_y, fx, fy);
            assert(cell_factors_ok(origin, factors, cx as int, cy as int));
            let x_offset: i32 = x_factor - 128;
            let b_offset: i32 = b_factor - 128;
            let (kx, kb) = correlation(x_offset, b_offset);
            let x = coeff_xyb.x.cell(x_region.left + cx, x_region.top + cy);
            let y = coeff_xyb.y.cell(y_region.left + cx, y_region.top + cy);
            let b = coeff_xyb.b.cell(b_region.left + cx, b_region.top + cy);
            let (x2, b2) = predict(kx, kb, x, y, b);
            coeff_xyb.x.put(x_region.left + cx, x_region.top + cy, x2);
            coeff_xyb.b.put(b_region.left + cx, b_region.top + cy, b2);
            proof {
                assert(fx == factor_tile(origin.0 + cx));
                assert(fy == factor_tile(origin.1 + cy));
                assert(x == before.x.at(x_region.left + cx, x_region.top + cy));
                assert(y == before.y.at(y_region.left + cx, y_region.top + cy));
                assert(b == before.b.at(b_region.left + cx, b_region.top + cy));
                assert(coeff_xyb.x.at(x_region.left + cx, x_region.top + cy) == x2);
                assert(coeff_xyb.b.at(b_region.left + cx, b_region.top + cy) == b2);
                assert(links(correlation, predict, x_offset, b_offset, kx, kb, x, y, b, x2, b2));
                assert(hf_cell_predicted(
                    before,
                    regions,
                    origin,
                    factors,
                    correlation,
                    predict,
                    *coeff_xyb,
                    cx as int,
                    cy as int,
                ));
                assert forall|x: int, y: int| 0 <= x < width && 0 <= y < cy implies #[trigger] hf_cell_predicted(
                    before,
                    regions,
                    origin,
                    factors,
                    correlation,
                    predict,
                    *coeff_xyb,
                    x,
                    y,
                ) by {
                    assert(hf_cell_predicted(
                        before,
                        regions,
                        origin,
                        factors,
                        correlation,
                        predict,
                        earlier,
                        x,
                        y,
                    ));
                    assert(coeff_xyb.x.at(x_region.left + x, x_region.top + y) == earlier.x.at(
                        x_region.left + x,
                        x_region.top + y,
                    ));
                    assert(coeff_xyb.b.at(b_region.left + x, b_region.top + y) == earlier.b.at(
                        b_region.left + x,
                        b_region.top + y,
                    ));
                }
                assert forall|x: int| 0 <= x < cx implies #[trigger] hf_cell_predicted(
                    before,
                    regions,
                    origin,
                    factors,
                    correlation,
                    predict,
                    *coeff_xyb,
                    x,
                    cy as int,
                ) by {
                    assert(hf_cell_predicted(
                        before,
                        regions,
                        origin,
                        factors,
                        correlation,
                        predict,
                        earlier,
                        x,
                        cy as int,
                    ));
                    assert(coeff_xyb.x.at(x_region.left + x, x_region.top + cy) == earlier.x.at(
                        x_region.left + x,
                        x_region.top + cy,
                    ));
                    assert(coeff_xyb.b.at(b_region.left + x, b_region.top + cy) == earlier.b.at(
                        b_region.left + x,
                        b_region.top + cy,
                    ));
                }
            }
            cx += 1;
        }
        cy += 1;
    }
    Ok(())
}

} // verus!
