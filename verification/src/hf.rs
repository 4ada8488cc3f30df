//! Dequantization of the high-frequency coefficients of one block.
use vstd::prelude::*;
use jxl_grid::SimpleGrid;
use crate::error::Error;
use crate::grid::{
    cell_of, grid_at, grid_has, grid_height, grid_shaped, grid_width, height_of, is_shaped,
    width_of,
};
use crate::plane::{cell_index, lemma_cell_index, Plane, Region};
use crate::transform::TransformType;

verus! {

/// A quantized coefficient, sorted by how the quantizer's bias is taken out
/// of it.  The three values next to zero are corrected by a constant; every
/// other value `q` is corrected by a term that divides by `q`, which is why
/// zero must never reach that branch.
#[derive(Clone, Copy, Debug, PartialEq, Eq, Structural)]
pub enum QuantClass {
    MinusOne,
    Zero,
    PlusOne,
    Other(i32),
}

/// The class of the quantized value `q`.
pub open spec fn spec_classify(q: i32) -> QuantClass {
    if q == -1 {
        QuantClass::MinusOne
    } else if q == 0 {
        QuantClass::Zero
    } else if q == 1 {
        QuantClass::PlusOne
    } else {
        QuantClass::Other(q)
    }
}

/// The class of the quantized value `q`.
pub fn classify(q: i32) -> (c: QuantClass)
    ensures
        c == spec_classify(q),
        c matches QuantClass::Other(v) ==> v == q && v != 0 && v != 1 && v != -1,
{
    if q == -1 {
        QuantClass::MinusOne
    } else if q == 0 {
        QuantClass::Zero
    } else if q == 1 {
        QuantClass::PlusOne
    } else {
        QuantClass::Other(q)
    }
}

/// The number that 65536 is divided by to get a block's multiplier: the
/// global scale times the block's own multiplier.
pub open spec fn spec_hf_divisor(global_scale: u32, hf_mul: i32) -> int {
    global_scale * hf_mul
}

/// The global scale times the block's multiplier.  Fails with
/// `InvalidCoefficient` when the product does not fit 32 signed bits.
pub fn hf_divisor(global_scale: u32, hf_mul: i32) -> (r: Result<i32, Error>)
    ensures
        r is Ok <==> i32::MIN <= spec_hf_divisor(global_scale, hf_mul) <= i32::MAX,
        r is Ok ==> r.unwrap() == spec_hf_divisor(global_scale, hf_mul),
        r is Err ==> r == Err::<i32, Error>(Error::InvalidCoefficient),
{
    assert(-0x7fff_ffff_ffff_ffff <= (global_scale as int) * (hf_mul as int)
        <= 0x7fff_ffff_ffff_ffff) by (nonlinear_arith)
        requires
            0 <= global_scale as int <= 0xffff_ffff,
            -0x8000_0000 <= hf_mul as int <= 0x7fff_ffff,
    ;
    let wide: i64 = (global_scale as i64) * (hf_mul as i64);
    if wide < i32::MIN as i64 || wide > i32::MAX as i64 {
        Err(Error::InvalidCoefficient)
    } else {
        Ok(wide as i32)
    }
}

/// The power to which 0.8 is raised in a block's multiplier: two less than
/// the scale of the quantization map, where there is one.
pub open spec fn spec_qm_exponent(qm_scale: Option<u32>) -> Option<int> {
    match qm_scale {
        Some(s) => Some(s - 2),
        None => None,
    }
}

/// Two less than the scale of the quantization map.  Fails with
/// `InvalidCoefficient` when the scale does not fit 32 signed bits.
pub fn qm_exponent(qm_scale: Option<u32>) -> (r: Result<Option<i32>, Error>)
    ensures
        r is Ok <==> (qm_scale matches Some(s) ==> s <= i32::MAX),
        r is Ok ==> (match r.unwrap() {
            Some(e) => spec_qm_exponent(qm_scale) == Some(e as int),
            None => qm_scale is None,
        }),
        r is Err ==> r == Err::<Option<i32>, Error>(Error::InvalidCoefficient),
{
    match qm_scale {
        None => Ok(None),
        Some(s) => {
            if s > i32::MAX as u32 {
                Err(Error::InvalidCoefficient)
            } else {
                Ok(Some(s as i32 - 2))
            }
        },
    }
}

/// The cell of the destination region that receives coefficient `(x, y)`:
/// the same cell, or the mirrored one when the block is stored transposed.
pub open spec fn placed_at(region: Region, transposed: bool, x: int, y: int) -> (int, int) {
    if transposed {
        (region.left + y, region.top + x)
    } else {
        (region.left + x, region.top + y)
    }
}

/// The shape the destination region must have for a `width` by `height`
/// block of coefficients.
pub open spec fn region_matches(region: Region, transposed: bool, width: nat, height: nat) -> bool {
    if transposed {
        region.width == height && region.height == width
    } else {
        region.width == width && region.height == height
    }
}

/// The destination cell of coefficient `(x, y)` holds what `weigh` makes of
/// the coefficient's class, the channel's bias, the weight at the
/// coefficient's raster position and the block's multiplier.
pub open spec fn coefficient_dequantized<T, W: Fn(QuantClass, T, T, T) -> T>(
    coeff: SimpleGrid<i32>,
    bias: T,
    weights: Seq<T>,
    weigh: W,
    mul: T,
    transposed: bool,
    region: Region,
    out: Plane<T>,
    x: int,
    y: int,
) -> bool {
    let target = placed_at(region, transposed, x, y);
    weigh.ensures(
        (
            spec_classify(grid_at(coeff, x, y)),
            bias,
            weights[cell_index(grid_width(coeff) as int, x, y)],
            mul,
        ),
        out.at(target.0, target.1),
    )
}

/// `after` is `before` with the block written into `region`: every
/// coefficient is dequantized with the multiplier `mul` and placed, and no
/// cell outside the region changes.
pub open spec fn block_dequantized<T, W: Fn(QuantClass, T, T, T) -> T>(
    coeff: SimpleGrid<i32>,
    bias: T,
    weights: Seq<T>,
    weigh: W,
    mul: T,
    transposed: bool,
    region: Region,
    before: Plane<T>,
    after: Plane<T>,
) -> bool {
    &&& after.same_shape(before)
    &&& after.shaped()
    &&& forall|x: int, y: int|
        grid_has(coeff, x, y) ==> #[trigger] coefficient_dequantized(
            coeff,
            bias,
            weights,
            weigh,
            mul,
            transposed,
            region,
            after,
            x,
            y,
        )
    &&& forall|px: int, py: int|
        before.has(px, py) && !region.covers(px, py) ==> #[trigger] after.at(px, py) == before.at(
            px,
            py,
        )
}

/// What the call is refused for, if anything: a channel that does not
/// exist, a multiplier term out of range, or a block, a weight table or a
/// destination of the wrong shape, in this order.  The weight table must
/// hold one weight per coefficient.
pub open spec fn hf_refusal<T>(
    coeff: [SimpleGrid<i32>; 3],
    channel: usize,
    dct_select: TransformType,
    hf_mul: i32,
    global_scale: u32,
    qm_scale: Option<u32>,
    weights: Seq<T>,
    out: Plane<T>,
    region: Region,
) -> Option<Error> {
    if channel >= 3 {
        Some(Error::InvalidCoefficient)
    } else if !(i32::MIN <= spec_hf_divisor(global_scale, hf_mul) <= i32::MAX) {
        Some(Error::InvalidCoefficient)
    } else if qm_scale is Some && qm_scale.unwrap() > i32::MAX {
        Some(Error::InvalidCoefficient)
    } else if !grid_shaped(coeff[channel as int]) || weights.len() != grid_width(
        coeff[channel as int],
    ) * grid_height(coeff[channel as int]) {
        Some(Error::ShapeMismatch)
    } else if !region_matches(
        region,
        dct_select.spec_need_transpose(),
        grid_width(coeff[channel as int]),
        grid_height(coeff[channel as int]),
    ) || !region.within(out.spec_width(), out.spec_height()) {
        Some(Error::ShapeMismatch)
    } else {
        None
    }
}

/// Dequantizes the coefficients of one block for one channel and writes
/// them into `region` of `out`.
///
/// `multiplier` is called once, with the product of `global_scale` and
/// `hf_mul` and with the exponent that `qm_scale` gives, and returns the
/// block's multiplier.  `weigh` is then called for every coefficient, with
/// the coefficient's class, the bias of the channel, the weight that
/// `weights` holds at the coefficient's raster position, and the
/// multiplier; what it returns is stored.  A block whose transform is
/// taller than wide is stored transposed: coefficient `(x, y)` goes to
/// column `y` and row `x` of the region.
///
/// Nothing is computed and nothing is written when the call fails.
pub fn dequant_hf_varblock<
    T: Copy,
    M: Fn(i32, Option<i32>) -> T,
    W: Fn(QuantClass, T, T, T) -> T,
>(
    coeff: &[SimpleGrid<i32>; 3],
    channel: usize,
    dct_select: TransformType,
    hf_mul: i32,
    global_scale: u32,
    qm_scale: Option<u32>,
    quant_bias: &[T; 3],
    weights: &[T],
    out: &mut Plane<T>,
    region: Region,
    multiplier: M,
    weigh: W,
) -> (r: Result<(), Error>)
    requires
        forall|d: i32, e: Option<i32>| multiplier.requires((d, e)),
        forall|q: QuantClass, b: T, w: T, m: T| weigh.requires((q, b, w, m)),
    ensures
        match hf_refusal(
            *coeff,
            channel,
            dct_select,
            hf_mul,
            global_scale,
            qm_scale,
            weights@,
            *old(out),
            region,
        ) {
            Some(e) => r == Err::<(), Error>(e) && *final(out) == *old(out),
            None => r is Ok && exists|mul: T|
                {
                    &&& multiplier.ensures(
                        (
                            spec_hf_divisor(global_scale, hf_mul) as i32,
                            match qm_scale {
                                Some(s) => Some((s - 2) as i32),
                                None => None,
                            },
                        ),
                        mul,
                    )
                    &&& #[trigger] block_dequantized(
                        coeff[channel as int],
                        quant_bias[channel as int],
                        weights@,
                        weigh,
                        mul,
                        dct_select.spec_need_transpose(),
                        region,
                        *old(out),
                        *final(out),
                    )
                },
        },
{
    if channel >= 3 {
        return Err(Error::InvalidCoefficient);
    }
    let divisor: i32 = match hf_divisor(global_scale, hf_mul) {
        Ok(d) => d,
        Err(e) => {
            return Err(e);
        },
    };
    let exponent: Option<i32> = match qm_exponent(qm_scale) {
        Ok(e) => e,
        Err(e) => {
            return Err(e);
        },
    };
    let block = &coeff[channel];
    let bias = quant_bias[channel];
    let width: usize = width_of(block);
    let height: usize = height_of(block);
    let cells: usize = weights.len();
    if !is_shaped(block) {
        return Err(Error::ShapeMismatch);
    }
    match width.checked_mul(height) {
        Some(product) => {
            if product != cells {
                return Err(Error::ShapeMismatch);
            }
        },
        None => {
            return Err(Error::ShapeMismatch);
        },
    }
    let transposed = dct_select.need_transpose();
    let fits = if transposed {
        region.width == height && region.height == width
    } else {
        region.width == width && region.height == height
    };
    if !fits || !out.contains(&region) {
        return Err(Error::ShapeMismatch);
    }
    let out_width: usize = out.width();
    let out_height: usize = out.height();
    let ghost before = *out;
    let mul = multiplier(divisor, exponent);
    let mut y: usize = 0;
    while y < height
        invariant
            y <= height,
            width == grid_width(*block),
            height == grid_height(*block),
            grid_shaped(*block),
            cells == width * height,
            cells == weights@.len(),
            channel < 3,
            *block == coeff[channel as int],
            region_matches(region, transposed, width as nat, height as nat),
            region.within(out_width as nat, out_height as nat),
            out_width == before.spec_width(),
            out_height == before.spec_height(),
            out.same_shape(before),
            out.shaped(),
            forall|q: QuantClass, b: T, w: T, m: T| weigh.requires((q, b, w, m)),
            forall|cx: int, cy: int|
                0 <= cx < width && 0 <= cy < y ==> #[trigger] coefficient_dequantized(
                    *block,
                    bias,
                    weights@,
                    weigh,
                    mul,
                    transposed,
                    region,
                    *out,
                    cx,
                    cy,
                ),
            forall|px: int, py: int|
                before.has(px, py) && !region.covers(px, py) ==> #[trigger] out.at(px, py)
                    == before.at(px, py),
        decreases height - y,
    {
        let mut x: usize = 0;
        while x < width
            invariant
                x <= width,
                y < height,
                width == grid_width(*block),
                height == grid_height(*block),
                grid_shaped(*block),
                cells == width * height,
                cells == weights@.len(),
                channel < 3,
                *block == coeff[channel as int],
                region_matches(region, transposed, width as nat, height as nat),
                region.within(out_width as nat, out_height as nat),
                out_width == before.spec_width(),
                out_height == before.spec_height(),
                out.same_shape(before),
                out.shaped(),
                forall|q: QuantClass, b: T, w: T, m: T| weigh.requires((q, b, w, m)),
                forall|cx: int, cy: int|
                    0 <= cx < width && 0 <= cy < y ==> #[trigger] coefficient_dequantized(
                        *block,
                        bias,
                        weights@,
                        weigh,
                        mul,
                        transposed,
                        region,
                        *out,
                        cx,
                        cy,
                    ),
                forall|cx: int|
                    0 <= cx < x ==> #[trigger] coefficient_dequantized(
                        *block,
                        bias,
                        weights@,
                        weigh,
                        mul,
                        transposed,
                        region,
                        *out,
                        cx,
                        y as int,
                    ),
                forall|px: int, py: int|
                    before.has(px, py) && !region.covers(px, py) ==> #[trigger] out.at(px, py)
                        == before.at(px, py),
            decreases width - x,
        {
            proof {
                lemma_cell_index(width as int, height as int, x as int, y as int);
            }
            let ghost earlier = *out;
            let index: usize = y * width + x;
            let value = weigh(classify(cell_of(block, x, y)), bias, weights[index], mul);
            if transposed {
                out.put(region.left + y, region.top + x, value);
            } else {
                out.put(region.left + x, region.top + y, value);
            }
            proof {
                assert(coefficient_dequantized(
                    *block,
                    bias,
                    weights@,
                    weigh,
                    mul,
                    transposed,
                    region,
                    *out,
                    x as int,
                    y as int,
                ));
                assert forall|cx: int, cy: int| 0 <= cx < width && 0 <= cy < y implies #[trigger] coefficient_dequantized(
                    *block,
                    bias,
                    weights@,
                    weigh,
                    mul,
                    transposed,
                    region,
                    *out,
                    cx,
                    cy,
                ) by {
                    assert(coefficient_dequantized(
                        *block,
                        bias,
                        weights@,
                        weigh,
                        mul,
                        transposed,
                        region,
                        earlier,
                        cx,
                        cy,
                    ));
                }
                assert forall|cx: int| 0 <= cx < x implies #[trigger] coefficient_dequantized(
                    *block,
                    bias,
                    weights@,
                    weigh,
                    mul,
                    transposed,
                    region,
                    *out,
                    cx,
                    y as int,
                ) by {
                    assert(coefficient_dequantized(
                        *block,
                        bias,
                        weights@,
                        weigh,
                        mul,
                        transposed,
                        region,
                        earlier,
                        cx,
                        y as int,
                    ));
                }
            }
            x += 1;
        }
        y += 1;
    }
    assert(block_dequantized(
        coeff[channel as int],
        bias,
        weights@,
        weigh,
        mul,
        transposed,
        region,
        before,
        *out,
    ));
    Ok(())
}

} // verus!
