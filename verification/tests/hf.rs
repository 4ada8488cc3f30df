use jxl_grid::SimpleGrid;
use jxl_reconstruct::hf::{classify, hf_divisor, qm_exponent};
use jxl_reconstruct::{dequant_hf_varblock, Error, Plane, QuantClass, Region, TransformType};

/// The block multiplier: 65536 over the divisor, damped by 0.8 to the
/// exponent where there is one.
fn multiplier(divisor: i32, exponent: Option<i32>) -> f32 {
    let mut mul = 65536.0 / divisor as f32;
    if let Some(e) = exponent {
        mul *= 0.8f32.powi(e);
    }
    mul
}

/// Bias correction of one coefficient, then its weight and the multiplier.
fn weigh(numerator: f32) -> impl Fn(QuantClass, f32, f32, f32) -> f32 {
    move |class, bias, weight, mul| {
        let v = match class {
            QuantClass::MinusOne => -bias,
            QuantClass::Zero => 0.0,
            QuantClass::PlusOne => bias,
            QuantClass::Other(q) => q as f32 - numerator / q as f32,
        };
        v * weight * mul
    }
}

fn region(left: usize, top: usize, width: usize, height: usize) -> Region {
    Region { left, top, width, height }
}

fn grid(width: usize, height: usize, samples: Vec<i32>) -> SimpleGrid<i32> {
    assert_eq!(samples.len(), width * height);
    let mut g = SimpleGrid::new(width, height);
    g.buf_mut().copy_from_slice(&samples);
    g
}

fn empty() -> SimpleGrid<i32> {
    grid(0, 0, vec![])
}

#[test]
fn classify_sorts_by_distance_from_zero() {
    assert_eq!(classify(-1), QuantClass::MinusOne);
    assert_eq!(classify(0), QuantClass::Zero);
    assert_eq!(classify(1), QuantClass::PlusOne);
    assert_eq!(classify(2), QuantClass::Other(2));
    assert_eq!(classify(-2), QuantClass::Other(-2));
    assert_eq!(classify(i32::MAX), QuantClass::Other(i32::MAX));
    assert_eq!(classify(i32::MIN), QuantClass::Other(i32::MIN));
}

#[test]
fn hf_divisor_is_the_product() {
    assert_eq!(hf_divisor(1, 1), Ok(1));
    assert_eq!(hf_divisor(2, 4), Ok(8));
    assert_eq!(hf_divisor(4096, 5), Ok(20480));
    assert_eq!(hf_divisor(3, -2), Ok(-6));
    assert_eq!(hf_divisor(0, 17), Ok(0));
    assert_eq!(hf_divisor(65536, 32767), Ok(2147418112));
    assert_eq!(hf_divisor(1, i32::MAX), Ok(i32::MAX));
    assert_eq!(hf_divisor(1, i32::MIN), Ok(i32::MIN));
}

#[test]
fn hf_divisor_rejects_products_beyond_32_bits() {
    assert_eq!(hf_divisor(65536, 32768), Err(Error::InvalidCoefficient));
    assert_eq!(hf_divisor(2, i32::MAX), Err(Error::InvalidCoefficient));
    assert_eq!(hf_divisor(2, i32::MIN), Err(Error::InvalidCoefficient));
    assert_eq!(hf_divisor(u32::MAX, 1), Err(Error::InvalidCoefficient));
    assert_eq!(hf_divisor(u32::MAX, i32::MIN), Err(Error::InvalidCoefficient));
}

#[test]
fn qm_exponent_is_two_below_the_scale() {
    assert_eq!(qm_exponent(None), Ok(None));
    assert_eq!(qm_exponent(Some(0)), Ok(Some(-2)));
    assert_eq!(qm_exponent(Some(2)), Ok(Some(0)));
    assert_eq!(qm_exponent(Some(7)), Ok(Some(5)));
    assert_eq!(qm_exponent(Some(i32::MAX as u32)), Ok(Some(i32::MAX - 2)));
    assert_eq!(qm_exponent(Some(i32::MAX as u32 + 1)), Err(Error::InvalidCoefficient));
}

#[test]
fn multiplier_formula_has_exact_values() {
    assert_eq!(multiplier(1, None), 65536.0);
    assert_eq!(multiplier(8, None), 8192.0);
    assert_eq!(multiplier(8, Some(0)), 8192.0);
    assert_eq!(multiplier(8, Some(1)), 8192.0 * 0.8f32);
}

#[test]
fn dequant_hf_single_dc_term() {
    let mut quant = vec![0i32; 64];
    quant[0] = 64;
    let coeff = [empty(), grid(8, 8, quant), empty()];
    let matrix = vec![1.0f32; 64];
    let mut out = Plane::filled(8, 8, -1.0f32).unwrap();
    let r = dequant_hf_varblock(
        &coeff,
        1,
        TransformType::Dct8,
        1,
        1,
        None,
        &[0.0; 3],
        &matrix,
        &mut out,
        region(0, 0, 8, 8),
        multiplier,
        weigh(0.0),
    );
    assert_eq!(r, Ok(()));
    assert_eq!(out.get(0, 0), Some(64.0 * 1.0 * 65536.0));
    assert_eq!(out.get(0, 0), Some(4194304.0));
    for (i, v) in out.as_slice().iter().enumerate() {
        if i != 0 {
            assert_eq!(*v, 0.0, "position {}", i);
        }
    }
}

#[test]
fn dequant_hf_corrects_the_bias() {
    let coeff = [grid(4, 1, vec![-1, 0, 1, 4]), empty(), empty()];
    let matrix = [2.0f32, 2.0, 2.0, 2.0];
    let mut out = Plane::filled(4, 1, 0.0f32).unwrap();
    // global scale 2 and block multiplier 4: 65536 / 8 = 8192
    let r = dequant_hf_varblock(
        &coeff,
        0,
        TransformType::Dct8,
        4,
        2,
        None,
        &[0.25, 9.0, 9.0],
        &matrix,
        &mut out,
        region(0, 0, 4, 1),
        multiplier,
        weigh(1.0),
    );
    assert_eq!(r, Ok(()));
    // -1 -> -bias, 0 -> 0, 1 -> +bias, 4 -> 4 - 1/4; each times 2 times 8192
    assert_eq!(out.as_slice(), &[-4096.0, 0.0, 4096.0, 61440.0]);
}

#[test]
fn dequant_hf_uses_the_bias_and_position_of_the_channel() {
    let coeff = [empty(), empty(), grid(2, 2, vec![1, 1, -1, 3])];
    let matrix = [1.0f32, 2.0, 4.0, 8.0];
    let mut out = Plane::filled(2, 2, 0.0f32).unwrap();
    let r = dequant_hf_varblock(
        &coeff,
        2,
        TransformType::Dct8,
        1,
        65536,
        Some(2),
        &[100.0, 200.0, 0.5],
        &matrix,
        &mut out,
        region(0, 0, 2, 2),
        multiplier,
        weigh(1.5),
    );
    assert_eq!(r, Ok(()));
    assert_eq!(out.as_slice(), &[0.5, 1.0, -2.0, (3.0 - 1.5 / 3.0) * 8.0]);
}

#[test]
fn dequant_hf_applies_the_quantization_map_scale() {
    let coeff = [grid(1, 1, vec![2]), empty(), empty()];
    let matrix = [1.0f32];
    let mut out = Plane::filled(1, 1, 0.0f32).unwrap();
    let r = dequant_hf_varblock(
        &coeff,
        0,
        TransformType::Dct8,
        1,
        1,
        Some(3),
        &[0.0; 3],
        &matrix,
        &mut out,
        region(0, 0, 1, 1),
        multiplier,
        weigh(0.0),
    );
    assert_eq!(r, Ok(()));
    assert_eq!(out.get(0, 0), Some(2.0 * (65536.0 * 0.8f32)));
}

/// What a stage was handed: class, bias, weight, divisor and exponent.
type Seen = (QuantClass, i32, i32, i32, Option<i32>);

fn seen(class: QuantClass, bias: i32, weight: i32) -> Seen {
    (class, bias, weight, -21, Some(3))
}

#[test]
fn dequant_hf_hands_over_divisor_exponent_bias_and_weights() {
    let coeff = [empty(), grid(3, 2, vec![5, 0, -1, 1, 7, -9]), empty()];
    let blank: Seen = (QuantClass::Zero, 0, 0, 0, None);
    let bias: [Seen; 3] = [
        (QuantClass::Zero, 10, 0, 0, None),
        (QuantClass::Zero, 20, 0, 0, None),
        (QuantClass::Zero, 30, 0, 0, None),
    ];
    let weights: Vec<Seen> = (100..106).map(|w| (QuantClass::Zero, 0, w, 0, None)).collect();
    let mut out = Plane::filled(3, 2, blank).unwrap();
    let r = dequant_hf_varblock(
        &coeff,
        1,
        TransformType::Dct16,
        -3,
        7,
        Some(5),
        &bias,
        &weights,
        &mut out,
        region(0, 0, 3, 2),
        |d: i32, e: Option<i32>| (QuantClass::Zero, 0, 0, d, e),
        |q: QuantClass, b: Seen, w: Seen, m: Seen| (q, b.1, w.2, m.3, m.4),
    );
    assert_eq!(r, Ok(()));
    assert_eq!(
        out.as_slice(),
        &[
            seen(QuantClass::Other(5), 20, 100),
            seen(QuantClass::Zero, 20, 101),
            seen(QuantClass::MinusOne, 20, 102),
            seen(QuantClass::PlusOne, 20, 103),
            seen(QuantClass::Other(7), 20, 104),
            seen(QuantClass::Other(-9), 20, 105),
        ]
    );
}

#[test]
fn dequant_hf_writes_tall_blocks_transposed() {
    // 2 columns, 3 rows of coefficients
    let coeff = [grid(2, 3, vec![1, 2, 3, 4, 5, 6]), empty(), empty()];
    let weights = [0i64, 1000, 2000, 3000, 4000, 5000];
    let mut out = Plane::filled(5, 4, 0i64).unwrap();
    let r = dequant_hf_varblock(
        &coeff,
        0,
        TransformType::Dct16x8,
        1,
        1,
        None,
        &[0i64; 3],
        &weights,
        &mut out,
        region(1, 2, 3, 2),
        |_, _| 10i64,
        |q: QuantClass, _, w: i64, m: i64| match q {
            QuantClass::Other(v) => v as i64 * m + w,
            QuantClass::PlusOne => m,
            _ => -1,
        },
    );
    assert_eq!(r, Ok(()));
    // coefficient (x, y) lands in column y, row x of the region
    let expected = [
        [0, 0, 0, 0, 0],
        [0, 0, 0, 0, 0],
        [0, 10, 2030, 4050, 0],
        [0, 1020, 3040, 5060, 0],
    ]
    .concat();
    assert_eq!(out.as_slice(), expected.as_slice());
}

#[test]
fn dequant_hf_writes_wide_blocks_row_by_row() {
    let coeff = [grid(3, 2, vec![2, 3, 4, 5, 6, 7]), empty(), empty()];
    let mut out = Plane::filled(4, 4, 0i64).unwrap();
    let r = dequant_hf_varblock(
        &coeff,
        0,
        TransformType::Dct8x16,
        1,
        1,
        None,
        &[0i64; 3],
        &[1i64; 6],
        &mut out,
        region(1, 1, 3, 2),
        |_, _| 1i64,
        |q: QuantClass, _, _, _| match q {
            QuantClass::Other(v) => v as i64,
            _ => -1,
        },
    );
    assert_eq!(r, Ok(()));
    assert_eq!(out.as_slice(), &[0, 0, 0, 0, 0, 2, 3, 4, 0, 5, 6, 7, 0, 0, 0, 0]);
}

#[allow(clippy::too_many_arguments)]
fn refused(
    coeff: &[SimpleGrid<i32>; 3],
    channel: usize,
    dct_select: TransformType,
    hf_mul: i32,
    global_scale: u32,
    qm_scale: Option<u32>,
    weights: usize,
    target: Region,
) -> Option<Error> {
    let mut out = Plane::filled(6, 6, 7i64).unwrap();
    let r = dequant_hf_varblock(
        coeff,
        channel,
        dct_select,
        hf_mul,
        global_scale,
        qm_scale,
        &[0i64; 3],
        &vec![1i64; weights],
        &mut out,
        target,
        |_, _| -> i64 { panic!("no multiplier may be computed") },
        |_, _, _, _| panic!("no coefficient may be computed"),
    );
    assert_eq!(out.as_slice(), vec![7i64; 36].as_slice());
    r.err()
}

#[test]
fn dequant_hf_refuses_bad_input_and_writes_nothing() {
    let coeff = [grid(2, 3, vec![1; 6]), grid(2, 3, vec![1; 6]), grid(2, 3, vec![1; 6])];
    let wide = TransformType::Dct8x16;
    let tall = TransformType::Dct16x8;
    // a channel that does not exist
    assert_eq!(refused(&coeff, 3, wide, 1, 1, None, 6, region(0, 0, 2, 3)), Some(Error::InvalidCoefficient));
    // a divisor beyond 32 bits
    assert_eq!(refused(&coeff, 0, wide, 32768, 65536, None, 6, region(0, 0, 2, 3)), Some(Error::InvalidCoefficient));
    // a quantization map scale beyond 31 bits
    assert_eq!(refused(&coeff, 0, wide, 1, 1, Some(u32::MAX), 6, region(0, 0, 2, 3)), Some(Error::InvalidCoefficient));
    // a region of the wrong shape
    assert_eq!(refused(&coeff, 0, wide, 1, 1, None, 6, region(0, 0, 3, 2)), Some(Error::ShapeMismatch));
    assert_eq!(refused(&coeff, 0, tall, 1, 1, None, 6, region(0, 0, 2, 3)), Some(Error::ShapeMismatch));
    assert_eq!(refused(&coeff, 0, wide, 1, 1, None, 6, region(0, 0, 2, 4)), Some(Error::ShapeMismatch));
    // a region that leaves the plane
    assert_eq!(refused(&coeff, 0, wide, 1, 1, None, 6, region(5, 0, 2, 3)), Some(Error::ShapeMismatch));
    assert_eq!(refused(&coeff, 0, tall, 1, 1, None, 6, region(0, 5, 3, 2)), Some(Error::ShapeMismatch));
    // the bad channel is reported before the bad shape
    assert_eq!(refused(&coeff, 9, wide, 1, 1, None, 6, region(9, 9, 9, 9)), Some(Error::InvalidCoefficient));
}

#[test]
fn dequant_hf_refuses_a_weight_table_of_the_wrong_length() {
    let coeff = [grid(2, 3, vec![1; 6]), grid(2, 3, vec![1; 6]), grid(2, 3, vec![1; 6])];
    let wide = TransformType::Dct8x16;
    for weights in [0usize, 1, 5, 7, 64] {
        assert_eq!(
            refused(&coeff, 0, wide, 1, 1, None, weights, region(0, 0, 2, 3)),
            Some(Error::ShapeMismatch),
            "{} weights",
            weights
        );
    }
    assert_eq!(refused(&coeff, 0, TransformType::Dct16x8, 1, 1, None, 5, region(0, 0, 3, 2)), Some(Error::ShapeMismatch));
    // the bad multiplier is reported before the short table
    assert_eq!(refused(&coeff, 0, wide, 32768, 65536, None, 5, region(0, 0, 2, 3)), Some(Error::InvalidCoefficient));
}
