//! Dequantization of the low-frequency planes.
use vstd::prelude::*;
use crate::channel::Channel;
use jxl_grid::SimpleGrid;
use crate::error::Error;
use crate::grid::{
    grid_height, grid_samples, grid_shaped, grid_width, grids_same_shape, height_of, is_shaped,
    samples_of, width_of,
};
use crate::plane::Plane;
use crate::shift::spec_jpeg_shift;

verus! {

/// The three planes of an image in canonical channel order.
#[derive(Debug)]
pub struct Xyb<T> {
    pub x: Plane<T>,
    pub y: Plane<T>,
    pub b: Plane<T>,
}

impl<T> Xyb<T> {
    /// The plane of channel `c`.
    pub open spec fn channel(self, c: Channel) -> Plane<T> {
        match c {
            Channel::X => self.x,
            Channel::Y => self.y,
            Channel::B => self.b,
        }
    }
}

/// A sample with its eight neighbours.
#[derive(Debug)]
pub struct Window<T> {
    pub centre: T,
    pub left: T,
    pub up: T,
    pub right: T,
    pub down: T,
    pub up_left: T,
    pub up_right: T,
    pub down_left: T,
    pub down_right: T,
}

/// The window around cell `(x, y)` of `p`.
pub open spec fn window_at<T>(p: Plane<T>, x: int, y: int) -> Window<T> {
    Window {
        centre: p.at(x, y),
        left: p.at(x - 1, y),
        up: p.at(x, y - 1),
        right: p.at(x + 1, y),
        down: p.at(x, y + 1),
        up_left: p.at(x - 1, y - 1),
        up_right: p.at(x + 1, y - 1),
        down_left: p.at(x - 1, y + 1),
        down_right: p.at(x + 1, y + 1),
    }
}

/// Whether `(x, y)` is a cell of a `width` by `height` grid that does not
/// lie on its one-cell border.
pub open spec fn is_interior(width: nat, height: nat, x: int, y: int) -> bool {
    1 <= x && x + 1 < width && 1 <= y && y + 1 < height
}

/// Whether any channel is stored at reduced resolution: some channel's
/// subsampling mode is not zero.
pub open spec fn is_subsampled(jpeg_upsampling: [u32; 3]) -> bool {
    jpeg_upsampling[0] != 0 || jpeg_upsampling[1] != 0 || jpeg_upsampling[2] != 0
}

/// A channel with a shift on either axis makes the image subsampled: where
/// no mode is set, no channel is shifted.
pub proof fn lemma_shift_means_subsampled(jpeg_upsampling: [u32; 3], idx: int)
    requires
        0 <= idx < 3,
        spec_jpeg_shift(jpeg_upsampling, idx) != (0i32, 0i32),
    ensures
        is_subsampled(jpeg_upsampling),
{
}

/// `out` has the shape of `raw`, and each of its samples is what `scale`
/// makes of the quantized value in the same cell for channel `c`.
pub open spec fn scaled_from<T, S: Fn(Channel, i32) -> T>(
    raw: SimpleGrid<i32>,
    c: Channel,
    scale: S,
    out: Plane<T>,
) -> bool {
    &&& out.spec_width() == grid_width(raw)
    &&& out.spec_height() == grid_height(raw)
    &&& out.shaped()
    &&& forall|i: int|
        0 <= i < out@.len() ==> scale.ensures((c, grid_samples(raw)[i]), #[trigger] out@[i])
}

/// Dequantizes one plane: every quantized value goes through `scale`
/// together with its channel.  Fails with `ShapeMismatch` for a grid that
/// does not hold one sample per cell.
pub fn scale_plane<T: Copy, S: Fn(Channel, i32) -> T>(
    raw: &SimpleGrid<i32>,
    c: Channel,
    scale: &S,
) -> (r: Result<Plane<T>, Error>)
    requires
        forall|ch: Channel, v: i32| scale.requires((ch, v)),
    ensures
        r is Ok <==> grid_shaped(*raw),
        r is Err ==> r == Err::<Plane<T>, Error>(Error::ShapeMismatch),
        r is Ok ==> scaled_from(*raw, c, *scale, r.unwrap()),
{
    if !is_shaped(raw) {
        return Err(Error::ShapeMismatch);
    }
    let width: usize = width_of(raw);
    let height: usize = height_of(raw);
    let quantized = samples_of(raw);
    let n: usize = quantized.len();
    let mut samples: Vec<T> = Vec::with_capacity(n);
    let mut i: usize = 0;
    while i < n
        invariant
            i <= n,
            n == quantized@.len(),
            samples@.len() == i,
            forall|ch: Channel, v: i32| scale.requires((ch, v)),
            forall|k: int| 0 <= k < i ==> scale.ensures((c, quantized@[k]), #[trigger] samples@[k]),
        decreases n - i,
    {
        let v = scale(c, quantized[i]);
        samples.push(v);
        i += 1;
    }
    Ok(Plane::from_parts(width, height, samples))
}

/// `dq` holds the three quantized planes, each dequantized for its channel,
/// in canonical order.  The quantized planes arrive luma first, so X is
/// read from position 1, Y from position 0 and B from position 2.
pub open spec fn dequantized_from<T, S: Fn(Channel, i32) -> T>(
    lf_quant: [&SimpleGrid<i32>; 3],
    scale: S,
    dq: Xyb<T>,
) -> bool {
    &&& scaled_from(*lf_quant[Channel::X.spec_transmitted_index()], Channel::X, scale, dq.x)
    &&& scaled_from(*lf_quant[Channel::Y.spec_transmitted_index()], Channel::Y, scale, dq.y)
    &&& scaled_from(*lf_quant[Channel::B.spec_transmitted_index()], Channel::B, scale, dq.b)
}

/// `out` is `dq` after adaptive smoothing: the three planes have one shape,
/// every border cell keeps its sample, and the samples of every interior
/// cell are what `smooth` makes of the three windows around that cell in
/// `dq`.
pub open spec fn smoothed_from<T, M: Fn(Window<T>, Window<T>, Window<T>) -> (T, T, T)>(
    dq: Xyb<T>,
    smooth: M,
    out: Xyb<T>,
) -> bool {
    &&& out.x.same_shape(dq.x) && out.y.same_shape(dq.x) && out.b.same_shape(dq.x)
    &&& out.x.shaped() && out.y.shaped() && out.b.shaped()
    &&& forall|x: int, y: int|
        #![trigger out.x.at(x, y)]
        #![trigger out.y.at(x, y)]
        #![trigger out.b.at(x, y)]
        dq.x.has(x, y) ==> if is_interior(dq.x.spec_width(), dq.x.spec_height(), x, y) {
            smooth.ensures(
                (window_at(dq.x, x, y), window_at(dq.y, x, y), window_at(dq.b, x, y)),
                (out.x.at(x, y), out.y.at(x, y), out.b.at(x, y)),
            )
        } else {
            &&& out.x.at(x, y) == dq.x.at(x, y)
            &&& out.y.at(x, y) == dq.y.at(x, y)
            &&& out.b.at(x, y) == dq.b.at(x, y)
        }
}

/// Reads the window around an interior cell.
fn window<T: Copy>(p: &Plane<T>, x: usize, y: usize) -> (w: Window<T>)
    requires
        is_interior(p.spec_width(), p.spec_height(), x as int, y as int),
    ensures
        w == window_at(*p, x as int, y as int),
{
    let width: usize = p.width();
    let height: usize = p.height();
    assert(x + 1 < width && y + 1 < height);
    Window {
        centre: p.cell(x, y),
        left: p.cell(x - 1, y),
        up: p.cell(x, y - 1),
        right: p.cell(x + 1, y),
        down: p.cell(x, y + 1),
        up_left: p.cell(x - 1, y - 1),
        up_right: p.cell(x + 1, y - 1),
        down_left: p.cell(x - 1, y + 1),
        down_right: p.cell(x + 1, y + 1),
    }
}

/// Adaptive smoothing of dequantized low-frequency planes.
///
/// Every interior cell is replaced, in all three planes at once, by what
/// `smooth` returns for the windows around it; the windows are read from
/// `dq`, never from cells already smoothed.  Border cells are copied.
/// Fails with `ShapeMismatch` unless the three planes have one shape.
pub fn smooth_lf<T: Copy, M: Fn(Window<T>, Window<T>, Window<T>) -> (T, T, T)>(
    dq: &Xyb<T>,
    smooth: &M,
) -> (r: Result<Xyb<T>, Error>)
    requires
        forall|a: Window<T>, b: Window<T>, c: Window<T>| smooth.requires((a, b, c)),
    ensures
        r is Ok <==> dq.y.same_shape(dq.x) && dq.b.same_shape(dq.x),
        r is Err ==> r == Err::<Xyb<T>, Error>(Error::ShapeMismatch),
        r is Ok ==> smoothed_from(*dq, *smooth, r.unwrap()),
{
    let width: usize = dq.x.width();
    let height: usize = dq.x.height();
    if dq.y.width() != width || dq.y.height() != height || dq.b.width() != width || dq.b.height()
        != height {
        return Err(Error::ShapeMismatch);
    }
    let mut out_x = dq.x.duplicate();
    let mut out_y = dq.y.duplicate();
    let mut out_b = dq.b.duplicate();
    if width >= 3 && height >= 3 {
        let mut y: usize = 1;
        while y < height - 1
            invariant
                1 <= y <= height - 1,
                width >= 3,
                height >= 3,
                width == dq.x.spec_width(),
                height == dq.x.spec_height(),
                dq.y.same_shape(dq.x),
                dq.b.same_shape(dq.x),
                out_x.same_shape(dq.x) && out_y.same_shape(dq.x) && out_b.same_shape(dq.x),
                out_x.shaped() && out_y.shaped() && out_b.shaped(),
                forall|a: Window<T>, b: Window<T>, c: Window<T>| smooth.requires((a, b, c)),
                forall|cx: int, cy: int|
                    dq.x.has(cx, cy) ==> if is_interior(width as nat, height as nat, cx, cy) && cy
                        < y {
                        smooth.ensures(
                            (
                                window_at(dq.x, cx, cy),
                                window_at(dq.y, cx, cy),
                                window_at(dq.b, cx, cy),
                            ),
                            (#[trigger] out_x.at(cx, cy), out_y.at(cx, cy), out_b.at(cx, cy)),
                        )
                    } else {
                        &&& out_x.at(cx, cy) == dq.x.at(cx, cy)
                        &&& out_y.at(cx, cy) == dq.y.at(cx, cy)
                        &&& out_b.at(cx, cy) == dq.b.at(cx, cy)
                    },
            decreases height - y,
        {
            let mut x: usize = 1;
            while x < width - 1
                invariant
                    1 <= x <= width - 1,
                    1 <= y < height - 1,
                    width >= 3,
                    height >= 3,
                    width == dq.x.spec_width(),
                    height == dq.x.spec_height(),
                    dq.y.same_shape(dq.x),
                    dq.b.same_shape(dq.x),
                    out_x.same_shape(dq.x) && out_y.same_shape(dq.x) && out_b.same_shape(dq.x),
                    out_x.shaped() && out_y.shaped() && out_b.shaped(),
                    forall|a: Window<T>, b: Window<T>, c: Window<T>| smooth.requires((a, b, c)),
                    forall|cx: int, cy: int|
                        dq.x.has(cx, cy) ==> if is_interior(width as nat, height as nat, cx, cy)
                            && (cy < y || (cy == y && cx < x)) {
                            smooth.ensures(
                                (
                                    window_at(dq.x, cx, cy),
                                    window_at(dq.y, cx, cy),
                                    window_at(dq.b, cx, cy),
                                ),
                                (#[trigger] out_x.at(cx, cy), out_y.at(cx, cy), out_b.at(cx, cy)),
                            )
                        } else {
                            &&& out_x.at(cx, cy) == dq.x.at(cx, cy)
                            &&& out_y.at(cx, cy) == dq.y.at(cx, cy)
                            &&& out_b.at(cx, cy) == dq.b.at(cx, cy)
                        },
                decreases width - x,
            {
                let wx = window(&dq.x, x, y);
                let wy = window(&dq.y, x, y);
                let wb = window(&dq.b, x, y);
                let (sx, sy, sb) = smooth(wx, wy, wb);
                out_x.put(x, y, sx);
                out_y.put(x, y, sy);
                out_b.put(x, y, sb);
                x += 1;
            }
            y += 1;
        }
    }
    Ok(Xyb { x: out_x, y: out_y, b: out_b })
}

/// What the call is refused for, if anything: smoothing of subsampled
/// channels, a grid that does not hold one sample per cell, or smoothing of
/// grids of different shapes, in this order.
pub open spec fn lf_refusal(
    jpeg_upsampling: [u32; 3],
    skip_adaptive_lf_smoothing: bool,
    lf_quant: [&SimpleGrid<i32>; 3],
) -> Option<Error> {
    if !skip_adaptive_lf_smoothing && is_subsampled(jpeg_upsampling) {
        Some(Error::UnsupportedConfiguration)
    } else if !(grid_shaped(*lf_quant[0]) && grid_shaped(*lf_quant[1]) && grid_shaped(
        *lf_quant[2],
    )) {
        Some(Error::ShapeMismatch)
    } else if !skip_adaptive_lf_smoothing && !(grids_same_shape(*lf_quant[1], *lf_quant[0])
        && grids_same_shape(*lf_quant[1], *lf_quant[2])) {
        Some(Error::ShapeMismatch)
    } else {
        None
    }
}

/// Dequantizes the low-frequency planes.
///
/// `lf_quant` holds the quantized grids in the order in which they are
/// stored (Y, X, B); the result holds the dequantized planes in canonical
/// order (X, Y, B).  Each sample is what `scale` makes of the quantized
/// value and the channel it belongs to.  Unless
/// `skip_adaptive_lf_smoothing` is set, the planes then go through
/// [`smooth_lf`].
///
/// Smoothing is not defined for subsampled channels: when it is asked for
/// and any entry of `jpeg_upsampling` is not zero, the call fails with
/// `UnsupportedConfiguration`.  A grid that does not hold one sample per
/// cell, and smoothing of grids of different shapes, fail with
/// `ShapeMismatch`.  Every refusal comes before any sample is computed.
pub fn dequant_lf<
    T: Copy,
    S: Fn(Channel, i32) -> T,
    M: Fn(Window<T>, Window<T>, Window<T>) -> (T, T, T),
>(
    jpeg_upsampling: [u32; 3],
    skip_adaptive_lf_smoothing: bool,
    lf_quant: [&SimpleGrid<i32>; 3],
    scale: S,
    smooth: M,
) -> (r: Result<Xyb<T>, Error>)
    requires
        forall|ch: Channel, v: i32| scale.requires((ch, v)),
        forall|a: Window<T>, b: Window<T>, c: Window<T>| smooth.requires((a, b, c)),
    ensures
        match lf_refusal(jpeg_upsampling, skip_adaptive_lf_smoothing, lf_quant) {
            Some(e) => r == Err::<Xyb<T>, Error>(e),
            None => r is Ok,
        },
        r is Ok && skip_adaptive_lf_smoothing ==> dequantized_from(lf_quant, scale, r.unwrap()),
        r is Ok && !skip_adaptive_lf_smoothing ==> exists|dq: Xyb<T>|
            dequantized_from(lf_quant, scale, dq) && smoothed_from(dq, smooth, r.unwrap()),
{
    let do_smoothing = !skip_adaptive_lf_smoothing;
    if do_smoothing {
        let subsampled = jpeg_upsampling[0] != 0 || jpeg_upsampling[1] != 0 || jpeg_upsampling[2]
            != 0;
        if subsampled {
            return Err(Error::UnsupportedConfiguration);
        }
    }
    if !is_shaped(lf_quant[0]) || !is_shaped(lf_quant[1]) || !is_shaped(lf_quant[2]) {
        return Err(Error::ShapeMismatch);
    }
    if do_smoothing {
        let width: usize = width_of(lf_quant[1]);
        let height: usize = height_of(lf_quant[1]);
        if width_of(lf_quant[0]) != width || height_of(lf_quant[0]) != height || width_of(
            lf_quant[2],
        ) != width || height_of(lf_quant[2]) != height {
            return Err(Error::ShapeMismatch);
        }
    }
    let x = match scale_plane(lf_quant[Channel::X.transmitted_index()], Channel::X, &scale) {
        Ok(p) => p,
        Err(e) => {
            return Err(e);
        },
    };
    let y = match scale_plane(lf_quant[Channel::Y.transmitted_index()], Channel::Y, &scale) {
        Ok(p) => p,
        Err(e) => {
            return Err(e);
        },
    };
    let b = match scale_plane(lf_quant[Channel::B.transmitted_index()], Channel::B, &scale) {
        Ok(p) => p,
        Err(e) => {
            return Err(e);
        },
    };
    let dq = Xyb { x, y, b };
    if !do_smoothing {
        return Ok(dq);
    }
    let r = smooth_lf(&dq, &smooth);
    assert(r is Ok ==> dequantized_from(lf_quant, scale, dq) && smoothed_from(
        dq,
        smooth,
        r.unwrap(),
    ));
    r
}

} // verus!
