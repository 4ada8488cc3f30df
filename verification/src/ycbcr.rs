//! Chroma upsampling and the colour transform of JPEG-style planes.
use vstd::prelude::*;
use crate::error::Error;
use crate::plane::Plane;
use crate::shift::{jpeg_shift, modes_valid, spec_jpeg_shift};

verus! {

/// Half of `n`, rounded up: the number of samples a subsampled axis of
/// length `n` holds.
pub open spec fn half_up(n: int) -> int {
    (n + 1) / 2
}

/// The neighbour before position `i`, or `i` itself at the start.
pub open spec fn before_or_self(i: int) -> int {
    if i == 0 {
        0
    } else {
        i - 1
    }
}

/// The neighbour after position `i` among `count` samples, or `i` itself at
/// the end.
pub open spec fn after_or_self(i: int, count: int) -> int {
    if i + 1 < count {
        i + 1
    } else {
        i
    }
}

/// `interpolate` may return the pair `(first, second)` for the neighbourhood
/// `(before, centre, after)`.
pub open spec fn yields<T, F: Fn(T, T, T) -> (T, T)>(
    interpolate: F,
    neighbourhood: (T, T, T),
    first: T,
    second: T,
) -> bool {
    interpolate.ensures(neighbourhood, (first, second))
}

/// Input sample `x` of row `y` has been spread over output columns `2x` and
/// `2x + 1`: the two outputs are what `interpolate` returns for the sample's
/// left neighbour, the sample and its right neighbour.  At the ends of the
/// row the sample stands in for the missing neighbour.  The second output
/// is dropped where the row has no column `2x + 1`.
pub open spec fn spread_in_row<T, F: Fn(T, T, T) -> (T, T)>(
    before: Plane<T>,
    interpolate: F,
    after: Plane<T>,
    x: int,
    y: int,
) -> bool {
    let w = before.spec_width() as int;
    let args = (
        before.at(before_or_self(x), y),
        before.at(x, y),
        before.at(after_or_self(x, half_up(w)), y),
    );
    if 2 * x + 1 < w {
        yields(interpolate, args, after.at(2 * x, y), after.at(2 * x + 1, y))
    } else {
        exists|dropped: T| #[trigger] yields(interpolate, args, after.at(2 * x, y), dropped)
    }
}

/// Input sample `y` of column `x` has been spread over output rows `2y` and
/// `2y + 1`, with the samples above and below as neighbours.
pub open spec fn spread_in_column<T, F: Fn(T, T, T) -> (T, T)>(
    before: Plane<T>,
    interpolate: F,
    after: Plane<T>,
    x: int,
    y: int,
) -> bool {
    let h = before.spec_height() as int;
    let args = (
        before.at(x, before_or_self(y)),
        before.at(x, y),
        before.at(x, after_or_self(y, half_up(h))),
    );
    if 2 * y + 1 < h {
        yields(interpolate, args, after.at(x, 2 * y), after.at(x, 2 * y + 1))
    } else {
        exists|dropped: T| #[trigger] yields(interpolate, args, after.at(x, 2 * y), dropped)
    }
}

/// `after` is `before` with the first `rows` rows upsampled horizontally:
/// in each of them the first half of the row is spread over the whole row.
/// The other rows are untouched.
pub open spec fn upsampled_horizontally<T, F: Fn(T, T, T) -> (T, T)>(
    before: Plane<T>,
    rows: int,
    interpolate: F,
    after: Plane<T>,
) -> bool {
    &&& after.same_shape(before)
    &&& after.shaped()
    &&& forall|x: int, y: int|
        0 <= x < half_up(before.spec_width() as int) && 0 <= y < rows ==> #[trigger] spread_in_row(
            before,
            interpolate,
            after,
            x,
            y,
        )
    &&& forall|x: int, y: int|
        0 <= x < before.spec_width() && rows <= y < before.spec_height() ==> #[trigger] after.at(
            x,
            y,
        ) == before.at(x, y)
}

/// `after` is `before` upsampled vertically: in every column the upper half
/// is spread over the whole column.
pub open spec fn upsampled_vertically<T, F: Fn(T, T, T) -> (T, T)>(
    before: Plane<T>,
    interpolate: F,
    after: Plane<T>,
) -> bool {
    &&& after.same_shape(before)
    &&& after.shaped()
    &&& forall|x: int, y: int|
        0 <= x < before.spec_width() && 0 <= y < half_up(before.spec_height() as int)
            ==> #[trigger] spread_in_column(before, interpolate, after, x, y)
}

/// Half of `n`, rounded up.
pub fn half_of(n: usize) -> (r: usize)
    ensures
        r == half_up(n as int),
{
    n - n / 2
}

/// Upsamples the first `rows` rows of `plane` horizontally, in place; all
/// rows where the plane has fewer.
///
/// Each row is walked from its last input sample to its first, so that a
/// sample is read before the outputs of its left neighbours overwrite it.
pub fn upsample_horizontal<T: Copy, F: Fn(T, T, T) -> (T, T)>(
    plane: &mut Plane<T>,
    rows: usize,
    interpolate: &F,
)
    requires
        forall|l: T, c: T, r: T| interpolate.requires((l, c, r)),
    ensures
        upsampled_horizontally(
            *old(plane),
            if rows <= old(plane).spec_height() {
                rows as int
            } else {
                old(plane).spec_height() as int
            },
            *interpolate,
            *final(plane),
        ),
{
    let width: usize = plane.width();
    let height: usize = plane.height();
    let rows: usize = if rows <= height {
        rows
    } else {
        height
    };
    let half: usize = half_of(width);
    if half == 0 {
        return ;
    }
    let ghost before = *plane;
    let mut y: usize = 0;
    while y < rows
        invariant
            y <= rows <= height,
            half == half_up(width as int),
            half > 0,
            width == before.spec_width(),
            height == before.spec_height(),
            plane.same_shape(before),
            plane.shaped(),
            forall|l: T, c: T, r: T| interpolate.requires((l, c, r)),
            forall|cx: int, cy: int|
                0 <= cx < half && 0 <= cy < y ==> #[trigger] spread_in_row(
                    before,
                    *interpolate,
                    *plane,
                    cx,
                    cy,
                ),
            forall|cx: int, cy: int|
                0 <= cx < width && y <= cy < height ==> #[trigger] plane.at(cx, cy) == before.at(
                    cx,
                    cy,
                ),
        decreases rows - y,
    {
        let mut prev = plane.cell(half - 1, y);
        let mut x: usize = half;
        while x > 0
            invariant
                x <= half,
                y < rows <= height,
                half == half_up(width as int),
                half > 0,
                width == before.spec_width(),
                height == before.spec_height(),
                plane.same_shape(before),
                plane.shaped(),
                prev == before.at(after_or_self(x - 1, half as int), y as int),
                forall|l: T, c: T, r: T| interpolate.requires((l, c, r)),
                forall|cx: int, cy: int|
                    0 <= cx < half && 0 <= cy < y ==> #[trigger] spread_in_row(
                        before,
                        *interpolate,
                        *plane,
                        cx,
                        cy,
                    ),
                forall|cx: int| #![trigger spread_in_row(before, *interpolate, *plane, cx, y as int)]
                    x <= cx < half ==> spread_in_row(before, *interpolate, *plane, cx, y as int),
                forall|cx: int|
                    0 <= cx < width && cx < 2 * x ==> #[trigger] plane.at(cx, y as int)
                        == before.at(cx, y as int),
                forall|cx: int, cy: int|
                    0 <= cx < width && y < cy < height ==> #[trigger] plane.at(cx, cy)
                        == before.at(cx, cy),
            decreases x,
        {
            x -= 1;
            let ghost earlier = *plane;
            let curr = plane.cell(x, y);
            let left_x: usize = if x == 0 {
                0
            } else {
                x - 1
            };
            let left = plane.cell(left_x, y);
            let (me, next) = interpolate(left, curr, prev);
            plane.put(2 * x, y, me);
            if 2 * x + 1 < width {
                plane.put(2 * x + 1, y, next);
            }
            proof {
                assert(yields(*interpolate, (left, curr, prev), me, next));
                assert(plane.at(2 * x, y as int) == me);
                assert(spread_in_row(before, *interpolate, *plane, x as int, y as int));
                assert forall|cx: int, cy: int| 0 <= cx < half && 0 <= cy < y implies #[trigger] spread_in_row(
                    before,
                    *interpolate,
                    *plane,
                    cx,
                    cy,
                ) by {
                    assert(spread_in_row(before, *interpolate, earlier, cx, cy));
                    assert(plane.at(2 * cx, cy) == earlier.at(2 * cx, cy));
                }
                assert forall|cx: int| x < cx < half implies #[trigger] spread_in_row(
                    before,
                    *interpolate,
                    *plane,
                    cx,
                    y as int,
                ) by {
                    assert(spread_in_row(before, *interpolate, earlier, cx, y as int));
                    assert(plane.at(2 * cx, y as int) == earlier.at(2 * cx, y as int));
                }
            }
            prev = curr;
        }
        y += 1;
    }
}

/// Upsamples `plane` vertically, in place.
///
/// The rows are walked from the last input row to the first, for the same
/// reason as the columns of a row in [`upsample_horizontal`].
pub fn upsample_vertical<T: Copy, F: Fn(T, T, T) -> (T, T)>(plane: &mut Plane<T>, interpolate: &F)
    requires
        forall|l: T, c: T, r: T| interpolate.requires((l, c, r)),
    ensures
        upsampled_vertically(*old(plane), *interpolate, *final(plane)),
{
    let width: usize = plane.width();
    let height: usize = plane.height();
    let half: usize = half_of(height);
    if half == 0 || width == 0 {
        return ;
    }
    let ghost before = *plane;
    let mut below: Vec<T> = Vec::with_capacity(width);
    let mut i: usize = 0;
    while i < width
        invariant
            i <= width,
            0 < half <= height,
            width == plane.spec_width(),
            height == plane.spec_height(),
            *plane == before,
            below@.len() == i,
            forall|cx: int| 0 <= cx < i ==> #[trigger] below@[cx] == before.at(cx, half - 1),
        decreases width - i,
    {
        below.push(plane.cell(i, half - 1));
        i += 1;
    }
    let mut y: usize = half;
    while y > 0
        invariant
            y <= half,
            half == half_up(height as int),
            half > 0,
            width > 0,
            width == before.spec_width(),
            height == before.spec_height(),
            plane.same_shape(before),
            plane.shaped(),
            below@.len() == width,
            forall|l: T, c: T, r: T| interpolate.requires((l, c, r)),
            forall|cx: int|
                0 <= cx < width ==> #[trigger] below@[cx] == before.at(
                    cx,
                    after_or_self(y - 1, half as int),
                ),
            forall|cx: int, cy: int|
                0 <= cx < width && y <= cy < half ==> #[trigger] spread_in_column(
                    before,
                    *interpolate,
                    *plane,
                    cx,
                    cy,
                ),
            forall|cx: int, cy: int|
                0 <= cx < width && 0 <= cy < height && cy < 2 * y ==> #[trigger] plane.at(cx, cy)
                    == before.at(cx, cy),
        decreases y,
    {
        y -= 1;
        let above_y: usize = if y == 0 {
            0
        } else {
            y - 1
        };
        let mut x: usize = 0;
        while x < width
            invariant
                x <= width,
                y < half,
                above_y == before_or_self(y as int),
                half == half_up(height as int),
                width == before.spec_width(),
                height == before.spec_height(),
                plane.same_shape(before),
                plane.shaped(),
                below@.len() == width,
                forall|l: T, c: T, r: T| interpolate.requires((l, c, r)),
                forall|cx: int|
                    x <= cx < width ==> #[trigger] below@[cx] == before.at(
                        cx,
                        after_or_self(y as int, half as int),
                    ),
                forall|cx: int| 0 <= cx < x ==> #[trigger] below@[cx] == before.at(cx, y as int),
                forall|cx: int, cy: int|
                    0 <= cx < width && y < cy < half ==> #[trigger] spread_in_column(
                        before,
                        *interpolate,
                        *plane,
                        cx,
                        cy,
                    ),
                forall|cx: int| #![trigger spread_in_column(before, *interpolate, *plane, cx, y as int)]
                    0 <= cx < x ==> spread_in_column(before, *interpolate, *plane, cx, y as int),
                forall|cx: int, cy: int|
                    0 <= cx < width && 0 <= cy < height && (cy < 2 * y || (cy < 2 * y + 2 && cx
                        >= x)) ==> #[trigger] plane.at(cx, cy) == before.at(cx, cy),
            decreases width - x,
        {
            let ghost earlier = *plane;
            let curr = plane.cell(x, y);
            let above = plane.cell(x, above_y);
            let under = below[x];
            let (me, next) = interpolate(above, curr, under);
            plane.put(x, 2 * y, me);
            if 2 * y + 1 < height {
                plane.put(x, 2 * y + 1, next);
            }
            below[x] = curr;
            proof {
                assert(yields(*interpolate, (above, curr, under), me, next));
                assert(plane.at(x as int, 2 * y) == me);
                assert(spread_in_column(before, *interpolate, *plane, x as int, y as int));
                assert forall|cx: int, cy: int| 0 <= cx < width && y < cy < half implies #[trigger] spread_in_column(
                    before,
                    *interpolate,
                    *plane,
                    cx,
                    cy,
                ) by {
                    assert(spread_in_column(before, *interpolate, earlier, cx, cy));
                    assert(plane.at(cx, 2 * cy) == earlier.at(cx, 2 * cy));
                }
                assert forall|cx: int| 0 <= cx < x implies #[trigger] spread_in_column(
                    before,
                    *interpolate,
                    *plane,
                    cx,
                    y as int,
                ) by {
                    assert(spread_in_column(before, *interpolate, earlier, cx, y as int));
                    assert(plane.at(cx, 2 * y) == earlier.at(cx, 2 * y));
                }
            }
            x += 1;
        }
    }
}

/// The two passes of one plane: `mid` is `before` after the horizontal
/// pass, `after` is `mid` after the vertical pass.  A pass that is not asked
/// for leaves the plane as it is.  When both are asked for, only the upper
/// half of the rows holds samples, and only those rows are upsampled
/// horizontally.
pub open spec fn passes<T, F: Fn(T, T, T) -> (T, T)>(
    before: Plane<T>,
    horizontal: bool,
    vertical: bool,
    interpolate: F,
    mid: Plane<T>,
    after: Plane<T>,
) -> bool {
    &&& if horizontal {
        upsampled_horizontally(
            before,
            if vertical {
                half_up(before.spec_height() as int)
            } else {
                before.spec_height() as int
            },
            interpolate,
            mid,
        )
    } else {
        mid == before
    }
    &&& if vertical {
        upsampled_vertically(mid, interpolate, after)
    } else {
        after == mid
    }
}

/// `after` is `before` brought to full resolution on the axes asked for,
/// horizontally first.
pub open spec fn upsampled<T, F: Fn(T, T, T) -> (T, T)>(
    before: Plane<T>,
    horizontal: bool,
    vertical: bool,
    interpolate: F,
    after: Plane<T>,
) -> bool {
    exists|mid: Plane<T>| #[trigger] passes(before, horizontal, vertical, interpolate, mid, after)
}

/// A plane that is subsampled on no axis comes out of upsampling exactly as
/// it went in.
pub proof fn lemma_upsample_noop<T, F: Fn(T, T, T) -> (T, T)>(
    before: Plane<T>,
    interpolate: F,
    after: Plane<T>,
)
    requires
        upsampled(before, false, false, interpolate, after),
    ensures
        after == before,
{
}

/// Brings one plane to full resolution on the axes asked for.
pub fn upsample_plane<T: Copy, F: Fn(T, T, T) -> (T, T)>(
    plane: &mut Plane<T>,
    horizontal: bool,
    vertical: bool,
    interpolate: &F,
)
    requires
        forall|l: T, c: T, r: T| interpolate.requires((l, c, r)),
    ensures
        upsampled(*old(plane), horizontal, vertical, *interpolate, *final(plane)),
        !horizontal && !vertical ==> *final(plane) == *old(plane),
{
    let ghost before = *plane;
    if horizontal {
        let height: usize = plane.height();
        let rows: usize = if vertical {
            half_of(height)
        } else {
            height
        };
        upsample_horizontal(plane, rows, interpolate);
    }
    let ghost mid = *plane;
    if vertical {
        upsample_vertical(plane, interpolate);
    }
    assert(passes(before, horizontal, vertical, *interpolate, mid, *plane));
}

/// Brings the three planes of a JPEG-style image to full resolution.
///
/// `jpeg_upsampling` holds the subsampling mode of each plane, in the order
/// of the planes; the shift of a plane follows from all three modes (see
/// [`spec_jpeg_shift`]).  A plane with a horizontal shift is upsampled
/// horizontally, then a plane with a vertical shift is upsampled
/// vertically; a plane with neither is not touched.  `interpolate` takes a
/// sample between its two neighbours and returns the two samples that
/// replace it.
///
/// Fails with `InvalidCoefficient`, leaving all three planes as they were,
/// when a mode is above 3.
pub fn ycbcr_upsample<T: Copy, F: Fn(T, T, T) -> (T, T)>(
    cb: &mut Plane<T>,
    y: &mut Plane<T>,
    cr: &mut Plane<T>,
    jpeg_upsampling: [u32; 3],
    interpolate: F,
) -> (r: Result<(), Error>)
    requires
        forall|l: T, c: T, r: T| interpolate.requires((l, c, r)),
    ensures
        r is Ok <==> modes_valid(jpeg_upsampling),
        r is Err ==> r == Err::<(), Error>(Error::InvalidCoefficient) && *final(cb) == *old(cb)
            && *final(y) == *old(y) && *final(cr) == *old(cr),
        r is Ok ==> upsampled(
            *old(cb),
            spec_jpeg_shift(jpeg_upsampling, 0).0 != 0,
            spec_jpeg_shift(jpeg_upsampling, 0).1 != 0,
            interpolate,
            *final(cb),
        ),
        r is Ok ==> upsampled(
            *old(y),
            spec_jpeg_shift(jpeg_upsampling, 1).0 != 0,
            spec_jpeg_shift(jpeg_upsampling, 1).1 != 0,
            interpolate,
            *final(y),
        ),
        r is Ok ==> upsampled(
            *old(cr),
            spec_jpeg_shift(jpeg_upsampling, 2).0 != 0,
            spec_jpeg_shift(jpeg_upsampling, 2).1 != 0,
            interpolate,
            *final(cr),
        ),
        r is Ok && spec_jpeg_shift(jpeg_upsampling, 0) == (0i32, 0i32) ==> *final(cb) == *old(cb),
        r is Ok && spec_jpeg_shift(jpeg_upsampling, 1) == (0i32, 0i32) ==> *final(y) == *old(y),
        r is Ok && spec_jpeg_shift(jpeg_upsampling, 2) == (0i32, 0i32) ==> *final(cr) == *old(cr),
{
    let shift_cb = jpeg_shift(jpeg_upsampling, 0);
    let shift_y = jpeg_shift(jpeg_upsampling, 1);
    let shift_cr = jpeg_shift(jpeg_upsampling, 2);
    match (shift_cb, shift_y, shift_cr) {
        (Ok(s0), Ok(s1), Ok(s2)) => {
            upsample_plane(cb, s0.0 != 0, s0.1 != 0, &interpolate);
            upsample_plane(y, s1.0 != 0, s1.1 != 0, &interpolate);
            upsample_plane(cr, s2.0 != 0, s2.1 != 0, &interpolate);
            Ok(())
        },
        _ => Err(Error::InvalidCoefficient),
    }
}

/// Replaces luma and chroma by red, green and blue, in place and sample by
/// sample: the sample of the first plane becomes the first value that
/// `convert` returns for the three samples at that position, the sample of
/// the second plane the second, that of the third plane the third.  After
/// the call the planes hold R, G and B where they held Cb, Y and Cr.
///
/// Where the planes differ in size, the positions that all three share are
/// converted and the rest is left alone.
pub fn perform_inverse_ycbcr<T: Copy, F: Fn(T, T, T) -> (T, T, T)>(
    cb: &mut Plane<T>,
    y: &mut Plane<T>,
    cr: &mut Plane<T>,
    convert: F,
)
    requires
        forall|a: T, b: T, c: T| convert.requires((a, b, c)),
    ensures
        final(cb).same_shape(*old(cb)) && final(y).same_shape(*old(y)) && final(cr).same_shape(
            *old(cr),
        ),
        final(cb)@.len() == old(cb)@.len() && final(y)@.len() == old(y)@.len() && final(cr)@.len()
            == old(cr)@.len(),
        forall|i: int|
            #![trigger final(cb)@[i]]
            #![trigger final(y)@[i]]
            #![trigger final(cr)@[i]]
            0 <= i < old(cb)@.len() && i < old(y)@.len() && i < old(cr)@.len() ==> convert.ensures(
                (old(cb)@[i], old(y)@[i], old(cr)@[i]),
                (final(cb)@[i], final(y)@[i], final(cr)@[i]),
            ),
        forall|i: int|
            !(i < old(y)@.len() && i < old(cr)@.len()) && 0 <= i < old(cb)@.len()
                ==> #[trigger] final(cb)@[i] == old(cb)@[i],
        forall|i: int|
            !(i < old(cb)@.len() && i < old(cr)@.len()) && 0 <= i < old(y)@.len()
                ==> #[trigger] final(y)@[i] == old(y)@[i],
        forall|i: int|
            !(i < old(cb)@.len() && i < old(y)@.len()) && 0 <= i < old(cr)@.len()
                ==> #[trigger] final(cr)@[i] == old(cr)@[i],
{
    let n_cb: usize = cb.len();
    let n_y: usize = y.len();
    let n_cr: usize = cr.len();
    let mut n: usize = n_cb;
    if n_y < n {
        n = n_y;
    }
    if n_cr < n {
        n = n_cr;
    }
    let mut i: usize = 0;
    while i < n
        invariant
            i <= n,
            n <= cb@.len() && n <= y@.len() && n <= cr@.len(),
            cb.same_shape(*old(cb)) && y.same_shape(*old(y)) && cr.same_shape(*old(cr)),
            cb@.len() == old(cb)@.len() && y@.len() == old(y)@.len() && cr@.len() == old(cr)@.len(),
            forall|a: T, b: T, c: T| convert.requires((a, b, c)),
            forall|k: int|
                #![trigger cb@[k]]
                #![trigger y@[k]]
                #![trigger cr@[k]]
                0 <= k < i ==> convert.ensures(
                    (old(cb)@[k], old(y)@[k], old(cr)@[k]),
                    (cb@[k], y@[k], cr@[k]),
                ),
            forall|k: int| i <= k < cb@.len() ==> #[trigger] cb@[k] == old(cb)@[k],
            forall|k: int| i <= k < y@.len() ==> #[trigger] y@[k] == old(y)@[k],
            forall|k: int| i <= k < cr@.len() ==> #[trigger] cr@[k] == old(cr)@[k],
        decreases n - i,
    {
        let (red, green, blue) = convert(cb.sample(i), y.sample(i), cr.sample(i));
        cb.set_sample(i, red);
        y.set_sample(i, green);
        cr.set_sample(i, blue);
        i += 1;
    }
}

} // verus!
