use jxl_grid::SimpleGrid;
use jxl_reconstruct::cfl::{factor_offset, hf_factor_offset, LEAST_FACTOR};
use jxl_reconstruct::{chroma_from_luma_hf, chroma_from_luma_lf, Error, Plane, Region, Xyb};

/// The two multipliers for the given configuration.
fn correlation(colour_factor: u32, base_x: f32, base_b: f32) -> impl Fn(i32, i32) -> (f32, f32) {
    move |x_offset, b_offset| {
        (
            base_x + x_offset as f32 / colour_factor as f32,
            base_b + b_offset as f32 / colour_factor as f32,
        )
    }
}

fn predict(kx: f32, kb: f32, x: f32, y: f32, b: f32) -> (f32, f32) {
    (x + kx * y, b + kb * y)
}

fn grid(width: usize, height: usize, samples: Vec<i32>) -> SimpleGrid<i32> {
    assert_eq!(samples.len(), width * height);
    let mut g = SimpleGrid::new(width, height);
    g.buf_mut().copy_from_slice(&samples);
    g
}

fn region(left: usize, top: usize, width: usize, height: usize) -> Region {
    Region { left, top, width, height }
}

fn xyb<T: Copy>(width: usize, height: usize, x: Vec<T>, y: Vec<T>, b: Vec<T>) -> Xyb<T> {
    Xyb {
        x: Plane::new(width, height, x).unwrap(),
        y: Plane::new(width, height, y).unwrap(),
        b: Plane::new(width, height, b).unwrap(),
    }
}

#[test]
fn factor_offset_counts_from_128() {
    assert_eq!(factor_offset(128), Ok(0));
    assert_eq!(factor_offset(0), Ok(-128));
    assert_eq!(factor_offset(255), Ok(127));
    assert_eq!(factor_offset(i32::MAX as u32), Ok(i32::MAX - 128));
    assert_eq!(factor_offset(i32::MAX as u32 + 1), Err(Error::InvalidCoefficient));
}

#[test]
fn cfl_lf_neutral_factors_leave_chroma_alone() {
    let mut planes = xyb(2, 2, vec![1.5, -2.0, 0.25, 8.0], vec![3.0, 4.0, -5.0, 0.5], vec![7.0, 0.0, -1.0, 2.5]);
    let r = chroma_from_luma_lf(&mut planes, 128, 128, correlation(84, 0.0, 0.0), predict);
    assert_eq!(r, Ok(()));
    assert_eq!(planes.x.as_slice(), &[1.5, -2.0, 0.25, 8.0]);
    assert_eq!(planes.y.as_slice(), &[3.0, 4.0, -5.0, 0.5]);
    assert_eq!(planes.b.as_slice(), &[7.0, 0.0, -1.0, 2.5]);
}

#[test]
fn cfl_lf_adds_multiples_of_luma() {
    let mut planes = xyb(3, 1, vec![1.0, 2.0, 3.0], vec![10.0, 20.0, -40.0], vec![0.5, 0.0, -0.5]);
    // kx = 0.25 + (170 - 128) / 84 = 0.75, kb = 1 + (44 - 128) / 84 = 0
    let r = chroma_from_luma_lf(&mut planes, 170, 44, correlation(84, 0.25, 1.0), predict);
    assert_eq!(r, Ok(()));
    assert_eq!(planes.x.as_slice(), &[8.5, 17.0, -27.0]);
    assert_eq!(planes.y.as_slice(), &[10.0, 20.0, -40.0]);
    assert_eq!(planes.b.as_slice(), &[0.5, 0.0, -0.5]);
}

#[test]
fn cfl_lf_default_correlation_adds_luma_to_b() {
    let mut planes = xyb(2, 1, vec![1.0, 2.0], vec![10.0, 20.0], vec![100.0, 200.0]);
    let r = chroma_from_luma_lf(&mut planes, 128, 128, correlation(84, 0.0, 1.0), predict);
    assert_eq!(r, Ok(()));
    assert_eq!(planes.x.as_slice(), &[1.0, 2.0]);
    assert_eq!(planes.b.as_slice(), &[110.0, 220.0]);
}

#[test]
fn cfl_lf_hands_over_offsets_once_and_samples_in_place() {
    let mut planes = xyb(2, 1, vec![(1, 0), (2, 0)], vec![(3, 0), (4, 0)], vec![(5, 0), (6, 0)]);
    let r = chroma_from_luma_lf(
        &mut planes,
        130,
        5,
        |x_offset: i32, b_offset: i32| ((x_offset, 0), (b_offset, 0)),
        |kx: (i32, i32), kb: (i32, i32), x: (i32, i32), y: (i32, i32), b: (i32, i32)| {
            ((kx.0 * 100 + x.0 * 10 + y.0, b.0), (kb.0 * 100 + b.0 * 10 + y.0, x.0))
        },
    );
    assert_eq!(r, Ok(()));
    assert_eq!(planes.x.as_slice(), &[(213, 5), (224, 6)]);
    assert_eq!(planes.y.as_slice(), &[(3, 0), (4, 0)]);
    assert_eq!(planes.b.as_slice(), &[(-12300 + 53, 1), (-12300 + 64, 2)]);
}

#[test]
fn cfl_lf_refuses_bad_input_and_changes_nothing() {
    let mut planes = xyb(1, 1, vec![1i64], vec![2], vec![3]);
    let r = chroma_from_luma_lf(&mut planes, u32::MAX, 128, |_, _| panic!("not called"), |_, _, _, _, _| panic!("not called"));
    assert_eq!(r, Err(Error::InvalidCoefficient));
    let r = chroma_from_luma_lf(&mut planes, 128, 1 << 31, |_, _| panic!("not called"), |_, _, _, _, _| panic!("not called"));
    assert_eq!(r, Err(Error::InvalidCoefficient));
    assert_eq!(planes.x.as_slice(), &[1]);

    let mut planes = Xyb {
        x: Plane::new(2, 1, vec![1i64, 2]).unwrap(),
        y: Plane::new(1, 2, vec![3, 4]).unwrap(),
        b: Plane::new(2, 1, vec![5, 6]).unwrap(),
    };
    let r = chroma_from_luma_lf(&mut planes, 128, 128, |_, _| panic!("not called"), |_, _, _, _, _| panic!("not called"));
    assert_eq!(r, Err(Error::ShapeMismatch));
    assert_eq!(planes.x.as_slice(), &[1, 2]);
    assert_eq!(planes.b.as_slice(), &[5, 6]);
}

#[test]
fn cfl_hf_looks_factors_up_per_tile() {
    // a 4x2 block whose corner lies at (62, 63): it straddles four tiles
    let mut planes = xyb(4, 2, vec![0.0f32; 8], vec![1.0, 1.0, 1.0, 1.0, 2.0, 2.0, 2.0, 2.0], vec![100.0; 8]);
    // offsets from 128: 84, 168, -84, 0 and 0, 42, 84, -42
    let x_from_y = grid(2, 2, vec![212, 296, 44, 128]);
    let b_from_y = grid(2, 2, vec![128, 170, 212, 86]);
    let whole = region(0, 0, 4, 2);
    let r = chroma_from_luma_hf(&mut planes, whole, whole, whole, 62, 63, &x_from_y, &b_from_y, correlation(84, 0.0, 1.0), predict);
    assert_eq!(r, Ok(()));
    // row 0 lies in tile row 0, row 1 in tile row 1; columns 0-1 in tile column 0, 2-3 in tile column 1
    assert_eq!(planes.x.as_slice(), &[1.0, 1.0, 2.0, 2.0, -2.0, -2.0, 0.0, 0.0]);
    assert_eq!(planes.b.as_slice(), &[101.0, 101.0, 101.5, 101.5, 104.0, 104.0, 101.0, 101.0]);
    assert_eq!(planes.y.as_slice(), &[1.0, 1.0, 1.0, 1.0, 2.0, 2.0, 2.0, 2.0]);
}

#[test]
fn cfl_hf_neighbouring_tiles() {
    // pixel 63 uses tile column 0, pixel 64 tile column 1
    let mut planes = xyb(2, 1, vec![0.0f32, 0.0], vec![1.0, 1.0], vec![0.0, 0.0]);
    let x_from_y = grid(2, 1, vec![128, 212]);
    let b_from_y = grid(2, 1, vec![128, 128]);
    let whole = region(0, 0, 2, 1);
    let r = chroma_from_luma_hf(&mut planes, whole, whole, whole, 63, 0, &x_from_y, &b_from_y, correlation(84, 0.0, 0.0), predict);
    assert_eq!(r, Ok(()));
    assert_eq!(planes.x.as_slice(), &[0.0, 1.0]);
    assert_eq!(planes.y.as_slice(), &[1.0, 1.0]);
    assert_eq!(planes.b.as_slice(), &[0.0, 0.0]);
}

#[test]
fn hf_factor_offset_counts_from_128() {
    assert_eq!(hf_factor_offset(128), Ok(0));
    assert_eq!(hf_factor_offset(0), Ok(-128));
    assert_eq!(hf_factor_offset(-7), Ok(-135));
    assert_eq!(hf_factor_offset(i32::MAX), Ok(i32::MAX - 128));
    assert_eq!(LEAST_FACTOR, i32::MIN + 128);
    assert_eq!(hf_factor_offset(LEAST_FACTOR), Ok(i32::MIN));
    assert_eq!(hf_factor_offset(LEAST_FACTOR - 1), Err(Error::InvalidCoefficient));
    assert_eq!(hf_factor_offset(i32::MIN), Err(Error::InvalidCoefficient));
}

#[test]
fn cfl_hf_hands_over_offsets_from_128() {
    let mut planes = xyb(1, 1, vec![(0, 0)], vec![(0, 0)], vec![(0, 0)]);
    let x_from_y = grid(1, 1, vec![128]);
    let b_from_y = grid(1, 1, vec![-7]);
    let whole = region(0, 0, 1, 1);
    let r = chroma_from_luma_hf(
        &mut planes,
        whole,
        whole,
        whole,
        0,
        0,
        &x_from_y,
        &b_from_y,
        |fx: i32, fb: i32| ((fx, fb), (fb, fx)),
        |kx: (i32, i32), kb: (i32, i32), _, _, _| (kx, kb),
    );
    assert_eq!(r, Ok(()));
    assert_eq!(planes.x.as_slice(), &[(0, -135)]);
    assert_eq!(planes.b.as_slice(), &[(-135, 0)]);
}

#[test]
fn cfl_hf_works_on_regions_of_larger_planes() {
    let mut planes = Xyb {
        x: Plane::new(3, 3, vec![0i64; 9]).unwrap(),
        y: Plane::new(4, 2, vec![1, 2, 3, 4, 5, 6, 7, 8]).unwrap(),
        b: Plane::new(2, 4, vec![0i64; 8]).unwrap(),
    };
    let factors = grid(1, 1, vec![131]);
    let r = chroma_from_luma_hf(
        &mut planes,
        region(1, 1, 2, 2),
        region(2, 0, 2, 2),
        region(0, 2, 2, 2),
        0,
        0,
        &factors,
        &factors,
        |fx: i32, fb: i32| (fx as i64, -fb as i64),
        |kx: i64, kb: i64, x: i64, y: i64, b: i64| (x + kx * y, b + kb * y),
    );
    assert_eq!(r, Ok(()));
    assert_eq!(planes.x.as_slice(), &[0, 0, 0, 0, 9, 12, 0, 21, 24]);
    assert_eq!(planes.y.as_slice(), &[1, 2, 3, 4, 5, 6, 7, 8]);
    assert_eq!(planes.b.as_slice(), &[0, 0, 0, 0, -9, -12, -21, -24]);
}

#[test]
fn cfl_hf_writes_only_inside_the_block() {
    // the B and Y regions are larger than the 2x1 block
    let mut planes = Xyb {
        x: Plane::new(3, 2, vec![0i64; 6]).unwrap(),
        y: Plane::new(3, 3, vec![1, 2, 3, 4, 5, 6, 7, 8, 9]).unwrap(),
        b: Plane::new(4, 3, vec![50i64; 12]).unwrap(),
    };
    let factors = grid(1, 1, vec![129]);
    let r = chroma_from_luma_hf(
        &mut planes,
        region(1, 1, 2, 1),
        region(0, 1, 3, 2),
        region(1, 0, 3, 3),
        0,
        0,
        &factors,
        &factors,
        |fx: i32, fb: i32| (fx as i64, fb as i64 * 10),
        |kx: i64, kb: i64, x: i64, y: i64, b: i64| (x + kx * y, b + kb * y),
    );
    assert_eq!(r, Ok(()));
    assert_eq!(planes.x.as_slice(), &[0, 0, 0, 0, 4, 5]);
    assert_eq!(planes.y.as_slice(), &[1, 2, 3, 4, 5, 6, 7, 8, 9]);
    assert_eq!(planes.b.as_slice(), &[50, 90, 100, 50, 50, 50, 50, 50, 50, 50, 50, 50]);
}

#[test]
fn cfl_hf_refuses_factors_out_of_range() {
    for (x_factors, b_factors) in [
        (vec![128, i32::MIN], vec![128, 128]),
        (vec![128, 128], vec![LEAST_FACTOR - 1, 128]),
    ] {
        let mut planes = xyb(4, 1, vec![1i64; 4], vec![2; 4], vec![3; 4]);
        let whole = region(0, 0, 4, 1);
        let r = chroma_from_luma_hf(
            &mut planes,
            whole,
            whole,
            whole,
            62,
            0,
            &grid(2, 1, x_factors),
            &grid(2, 1, b_factors),
            |_, _| (0i64, 0i64),
            |_, _, _, _, _| (9i64, 9i64),
        );
        assert_eq!(r, Err(Error::InvalidCoefficient));
        assert_eq!(planes.x.as_slice(), &[1, 1, 1, 1]);
        assert_eq!(planes.b.as_slice(), &[3, 3, 3, 3]);
    }
    // a bad factor in a tile that the block does not use is not looked at
    let mut planes = xyb(2, 1, vec![1i64; 2], vec![2; 2], vec![3; 2]);
    let whole = region(0, 0, 2, 1);
    let r = chroma_from_luma_hf(
        &mut planes,
        whole,
        whole,
        whole,
        0,
        0,
        &grid(2, 1, vec![128, i32::MIN]),
        &grid(2, 1, vec![128, i32::MIN]),
        |_, _| (0i64, 0i64),
        |_, _, x: i64, _, b: i64| (x, b),
    );
    assert_eq!(r, Ok(()));
}

#[test]
fn cfl_hf_empty_block_needs_no_factors() {
    let mut planes = xyb(2, 2, vec![1i64; 4], vec![2; 4], vec![3; 4]);
    let none = grid(0, 0, vec![]);
    let r = chroma_from_luma_hf(
        &mut planes,
        region(1, 1, 0, 1),
        region(0, 0, 0, 1),
        region(0, 0, 2, 2),
        usize::MAX,
        usize::MAX,
        &none,
        &none,
        |_, _| panic!("not called"),
        |_, _, _, _, _| panic!("not called"),
    );
    assert_eq!(r, Ok(()));
    assert_eq!(planes.x.as_slice(), &[1, 1, 1, 1]);
}

fn hf_refused(x_region: Region, y_region: Region, b_region: Region, left: usize, top: usize, tiles: (usize, usize)) -> bool {
    let mut planes = xyb(4, 4, vec![1i64; 16], vec![2; 16], vec![3; 16]);
    let x_from_y = grid(tiles.0, tiles.1, vec![1; tiles.0 * tiles.1]);
    let b_from_y = grid(2, 2, vec![1; 4]);
    let r = chroma_from_luma_hf(
        &mut planes,
        x_region,
        y_region,
        b_region,
        left,
        top,
        &x_from_y,
        &b_from_y,
        |_, _| panic!("not called"),
        |_, _, _, _, _| panic!("not called"),
    );
    assert_eq!(planes.x.as_slice(), &[1; 16]);
    assert_eq!(planes.b.as_slice(), &[3; 16]);
    r == Err(Error::ShapeMismatch)
}

#[test]
fn cfl_hf_refuses_blocks_that_do_not_fit() {
    let block = region(0, 0, 2, 2);
    // the Y or B region is smaller than the X region
    assert!(hf_refused(block, region(0, 0, 1, 2), block, 0, 0, (2, 2)));
    assert!(hf_refused(block, block, region(0, 0, 2, 1), 0, 0, (2, 2)));
    // a region leaves its plane
    assert!(hf_refused(region(3, 0, 2, 2), region(0, 0, 2, 2), block, 0, 0, (2, 2)));
    assert!(hf_refused(block, region(0, 3, 2, 2), block, 0, 0, (2, 2)));
    assert!(hf_refused(block, block, region(0, 0, 5, 2), 0, 0, (2, 2)));
    // the block reaches a tile that a factor grid does not have
    assert!(hf_refused(block, block, block, 127, 0, (2, 2)));
    assert!(hf_refused(block, block, block, 0, 127, (2, 2)));
    assert!(hf_refused(block, block, block, 63, 0, (1, 2)));
    assert!(hf_refused(block, block, block, 0, 63, (2, 1)));
    // the block's image position does not fit the address range
    assert!(hf_refused(block, block, block, usize::MAX, 0, (2, 2)));
    assert!(hf_refused(block, block, block, 0, usize::MAX - 1, (2, 2)));
}
