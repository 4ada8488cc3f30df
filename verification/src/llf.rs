//! The low-frequency seed of a transform block.
use vstd::prelude::*;
use crate::error::Error;
use crate::plane::{Plane, Region};
use crate::transform::TransformType;

verus! {

/// `block` is a copy of the cells of `region` in `lf`.
pub open spec fn block_copied<T>(lf: Plane<T>, region: Region, block: Plane<T>) -> bool {
    &&& block.spec_width() == region.width
    &&& block.spec_height() == region.height
    &&& block.shaped()
    &&& forall|x: int, y: int|
        region.has(x, y) ==> #[trigger] block.at(x, y) == lf.at(region.left + x, region.top + y)
}

/// `out` has the shape of `transformed`, and its sample in column `x` of
/// row `y` is what `rescale` makes of the transformed sample there, of `y`
/// and eight times the block's height, and of `x` and eight times the
/// block's width.
pub open spec fn block_rescaled<T, S: Fn(T, usize, usize, usize, usize) -> T>(
    transformed: Plane<T>,
    rescale: S,
    out: Plane<T>,
) -> bool {
    &&& out.same_shape(transformed)
    &&& out.shaped()
    &&& forall|x: int, y: int|
        transformed.has(x, y) ==> rescale.ensures(
            (
                transformed.at(x, y),
                y as usize,
                (8 * transformed.spec_height()) as usize,
                x as usize,
                (8 * transformed.spec_width()) as usize,
            ),
            #[trigger] out.at(x, y),
        )
}

/// Whether `region` is a block of the transform's size inside a plane of
/// the given dimensions.
pub open spec fn llf_shape_ok(
    region: Region,
    dct_select: TransformType,
    width: nat,
    height: nat,
) -> bool {
    &&& region.width == dct_select.spec_dct_select_size().0
    &&& region.height == dct_select.spec_dct_select_size().1
    &&& region.within(width, height)
}

/// What `r` must be once the forward transform has turned `block` into
/// `transformed`: the rescaled coefficients, or `ShapeMismatch` when the
/// transform did not keep the block's shape.
pub open spec fn llf_outcome<T, S: Fn(T, usize, usize, usize, usize) -> T>(
    block: Plane<T>,
    transformed: Plane<T>,
    rescale: S,
    r: Result<Plane<T>, Error>,
) -> bool {
    if transformed.same_shape(block) {
        r is Ok && block_rescaled(transformed, rescale, r.unwrap())
    } else {
        r == Err::<Plane<T>, Error>(Error::ShapeMismatch)
    }
}

/// The path of a block through the extractor: copied out of the plane,
/// transformed, rescaled.
pub open spec fn llf_steps<
    T,
    D: Fn(Plane<T>) -> Plane<T>,
    S: Fn(T, usize, usize, usize, usize) -> T,
>(
    lf: Plane<T>,
    region: Region,
    forward_dct: D,
    rescale: S,
    block: Plane<T>,
    transformed: Plane<T>,
    r: Result<Plane<T>, Error>,
) -> bool {
    &&& block_copied(lf, region, block)
    &&& forward_dct.ensures((block,), transformed)
    &&& llf_outcome(block, transformed, rescale, r)
}

/// Derives the low-frequency coefficients that a block contributes to its
/// own coefficient array.
///
/// `region` selects the block's samples in the dequantized low-frequency
/// plane `lf`; it must have exactly the size of the transform, in 8x8
/// blocks, and lie inside the plane, else the call fails with
/// `ShapeMismatch`.
///
/// For a transform of a single 8x8 block the result is a 1x1 plane holding
/// the block's one sample unchanged.  For every other transform the samples
/// are copied, handed to `forward_dct`, and each coefficient that comes back
/// is handed to `rescale` together with its row, eight times the block's
/// height, its column and eight times the block's width.  `forward_dct`
/// must keep the shape of the block; if it does not, the call fails with
/// `ShapeMismatch`.
pub fn llf_from_lf<
    T: Copy,
    D: Fn(Plane<T>) -> Plane<T>,
    S: Fn(T, usize, usize, usize, usize) -> T,
>(
    lf: &Plane<T>,
    region: Region,
    dct_select: TransformType,
    forward_dct: D,
    rescale: S,
) -> (r: Result<Plane<T>, Error>)
    requires
        forall|p: Plane<T>| forward_dct.requires((p,)),
        forall|v: T, c: usize, b: usize, c2: usize, b2: usize|
            rescale.requires((v, c, b, c2, b2)),
    ensures
        !llf_shape_ok(region, dct_select, lf.spec_width(), lf.spec_height()) ==> r == Err::<
            Plane<T>,
            Error,
        >(Error::ShapeMismatch),
        llf_shape_ok(region, dct_select, lf.spec_width(), lf.spec_height())
            && dct_select.spec_is_single() ==> r is Ok && r.unwrap().spec_width() == 1
            && r.unwrap().spec_height() == 1 && r.unwrap()@ == seq![
            lf.at(region.left as int, region.top as int),
        ],
        llf_shape_ok(region, dct_select, lf.spec_width(), lf.spec_height())
            && !dct_select.spec_is_single() ==> exists|block: Plane<T>, transformed: Plane<T>| #[trigger]
            llf_steps(*lf, region, forward_dct, rescale, block, transformed, r),
{
    let (bw, bh) = dct_select.dct_select_size();
    let single = dct_select.is_single();
    let width: usize = bw as usize;
    let height: usize = bh as usize;
    if region.width != width || region.height != height || !lf.contains(&region) {
        return Err(Error::ShapeMismatch);
    }
    let lf_width: usize = lf.width();
    let lf_height: usize = lf.height();
    let first = lf.cell(region.left, region.top);
    if single {
        return match Plane::filled(1, 1, first) {
            Ok(out) => {
                assert(out@ =~= seq![first]);
                Ok(out)
            },
            Err(e) => Err(e),
        };
    }
    assert(width * height <= 1024) by (nonlinear_arith)
        requires
            width <= 32,
            height <= 32,
    ;
    let mut block = match Plane::filled(width, height, first) {
        Ok(b) => b,
        Err(e) => {
            return Err(e);
        },
    };
    let mut y: usize = 0;
    while y < height
        invariant
            y <= height,
            width == region.width,
            height == region.height,
            region.within(lf_width as nat, lf_height as nat),
            lf_width == lf.spec_width(),
            lf_height == lf.spec_height(),
            block.spec_width() == width,
            block.spec_height() == height,
            block.shaped(),
            forall|cx: int, cy: int|
                0 <= cx < width && 0 <= cy < y ==> #[trigger] block.at(cx, cy) == lf.at(
                    region.left + cx,
                    region.top + cy,
                ),
        decreases height - y,
    {
        let mut x: usize = 0;
        while x < width
            invariant
                x <= width,
                y < height,
                width == region.width,
                height == region.height,
                region.within(lf_width as nat, lf_height as nat),
                lf_width == lf.spec_width(),
                lf_height == lf.spec_height(),
                block.spec_width() == width,
                block.spec_height() == height,
                block.shaped(),
                forall|cx: int, cy: int|
                    0 <= cx < width && 0 <= cy < y ==> #[trigger] block.at(cx, cy) == lf.at(
                        region.left + cx,
                        region.top + cy,
                    ),
                forall|cx: int|
                    0 <= cx < x ==> #[trigger] block.at(cx, y as int) == lf.at(
                        region.left + cx,
                        region.top + y,
                    ),
            decreases width - x,
        {
            block.put(x, y, lf.cell(region.left + x, region.top + y));
            x += 1;
        }
        y += 1;
    }
    let ghost copied = block;
    assert(block_copied(*lf, region, copied));
    let mut out = forward_dct(block);
    let ghost transformed = out;
    if out.width() != width || out.height() != height {
        let r = Err(Error::ShapeMismatch);
        assert(llf_steps(*lf, region, forward_dct, rescale, copied, transformed, r));
        return r;
    }
    let mut y: usize = 0;
    while y < height
        invariant
            y <= height,
            1 <= width <= 32,
            1 <= height <= 32,
            transformed.spec_width() == width,
            transformed.spec_height() == height,
            out.same_shape(transformed),
            out.shaped(),
            forall|v: T, c: usize, b: usize, c2: usize, b2: usize|
                rescale.requires((v, c, b, c2, b2)),
            forall|cx: int, cy: int|
                0 <= cx < width && 0 <= cy < height ==> if cy < y {
                    rescale.ensures(
                        (
                            transformed.at(cx, cy),
                            cy as usize,
                            (8 * height) as usize,
                            cx as usize,
                            (8 * width) as usize,
                        ),
                        #[trigger] out.at(cx, cy),
                    )
                } else {
                    out.at(cx, cy) == transformed.at(cx, cy)
                },
        decreases height - y,
    {
        let mut x: usize = 0;
        while x < width
            invariant
                x <= width,
                y < height,
                1 <= width <= 32,
                1 <= height <= 32,
                transformed.spec_width() == width,
                transformed.spec_height() == height,
                out.same_shape(transformed),
                out.shaped(),
                forall|v: T, c: usize, b: usize, c2: usize, b2: usize|
                    rescale.requires((v, c, b, c2, b2)),
                forall|cx: int, cy: int|
                    0 <= cx < width && 0 <= cy < height ==> if cy < y || (cy == y && cx < x) {
                        rescale.ensures(
                            (
                                transformed.at(cx, cy),
                                cy as usize,
                                (8 * height) as usize,
                                cx as usize,
                                (8 * width) as usize,
                            ),
                            #[trigger] out.at(cx, cy),
                        )
                    } else {
                        out.at(cx, cy) == transformed.at(cx, cy)
                    },
            decreases width - x,
        {
            let scaled = rescale(out.cell(x, y), y, height * 8, x, width * 8);
            out.put(x, y, scaled);
            x += 1;
        }
        y += 1;
    }
    let r = Ok(out);
    assert(llf_steps(*lf, region, forward_dct, rescale, copied, transformed, r));
    r
}

} // verus!
