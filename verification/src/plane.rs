//! Sample planes in raster order, and rectangular regions of them.
use vstd::prelude::*;
use crate::error::Error;

verus! {

/// A `width` by `height` grid of samples stored row by row.
///
/// The sample type is left open: the integer stages store `i32`
/// coefficients, the reconstruction stages store whatever numeric type the
/// caller decodes into.
#[derive(Debug)]
pub struct Plane<T> {
    width: usize,
    height: usize,
    samples: Vec<T>,
}

/// A rectangle of cells inside a plane.
#[derive(Clone, Copy, Debug, PartialEq, Eq, Structural)]
pub struct Region {
    pub left: usize,
    pub top: usize,
    pub width: usize,
    pub height: usize,
}

/// Raster index of the cell in column `x` and row `y` of a grid that is
/// `width` cells wide.
pub open spec fn cell_index(width: int, x: int, y: int) -> int {
    y * width + x
}

/// A cell inside a `width` by `height` grid has a raster index below
/// `width * height`, and distinct cells have distinct indices.
pub proof fn lemma_cell_index(width: int, height: int, x: int, y: int)
    requires
        0 <= x < width,
        0 <= y < height,
    ensures
        0 <= cell_index(width, x, y) < width * height,
        y * width <= cell_index(width, x, y) < (y + 1) * width,
        (y + 1) * width <= width * height,
{
    assert(y * width >= 0) by (nonlinear_arith)
        requires
            y >= 0,
            width > 0,
    ;
    assert((y + 1) * width <= height * width) by (nonlinear_arith)
        requires
            y + 1 <= height,
            width > 0,
    ;
    assert((y + 1) * width == y * width + width) by (nonlinear_arith);
    assert(height * width == width * height) by (nonlinear_arith);
}

/// Two different cells of a grid have different raster indices.
pub proof fn lemma_cell_index_distinct(width: int, x1: int, y1: int, x2: int, y2: int)
    requires
        0 <= x1 < width,
        0 <= x2 < width,
        0 <= y1,
        0 <= y2,
        x1 != x2 || y1 != y2,
    ensures
        cell_index(width, x1, y1) != cell_index(width, x2, y2),
{
    if y1 < y2 {
        lemma_rows_ordered(width, y1 + 1, y2);
        assert((y1 + 1) * width == y1 * width + width) by (nonlinear_arith);
    } else if y2 < y1 {
        lemma_rows_ordered(width, y2 + 1, y1);
        assert((y2 + 1) * width == y2 * width + width) by (nonlinear_arith);
    }
}

/// Rows are laid out one after another: a lower row ends before a higher
/// row begins.
pub proof fn lemma_rows_ordered(width: int, y1: int, y2: int)
    requires
        0 <= width,
        0 <= y1 <= y2,
    ensures
        0 <= y1 * width <= y2 * width,
{
    assert(y1 * width <= y2 * width) by (nonlinear_arith)
        requires
            0 <= width,
            0 <= y1 <= y2,
    ;
    assert(0 <= y1 * width) by (nonlinear_arith)
        requires
            0 <= width,
            0 <= y1,
    ;
}

impl Region {
    /// Whether the region lies inside a `width` by `height` grid.
    pub open spec fn within(self, width: nat, height: nat) -> bool {
        self.left + self.width <= width && self.top + self.height <= height
    }

    /// Whether column `x` and row `y`, counted from the region's corner,
    /// fall inside the region.
    pub open spec fn has(self, x: int, y: int) -> bool {
        0 <= x < self.width && 0 <= y < self.height
    }

    /// Whether the plane cell `(px, py)` belongs to the region.
    pub open spec fn covers(self, px: int, py: int) -> bool {
        self.left <= px < self.left + self.width && self.top <= py < self.top + self.height
    }
}

impl<T> Plane<T> {
    #[verifier::type_invariant]
    spec fn inv(self) -> bool {
        self.samples.len() == self.width * self.height
    }

    /// Number of columns.
    pub closed spec fn spec_width(self) -> nat {
        self.width as nat
    }

    /// Number of rows.
    pub closed spec fn spec_height(self) -> nat {
        self.height as nat
    }

    /// The samples in raster order.
    pub closed spec fn view(self) -> Seq<T> {
        self.samples@
    }

    /// The sample in column `x` of row `y`.
    pub open spec fn at(self, x: int, y: int) -> T {
        self@[cell_index(self.spec_width() as int, x, y)]
    }

    /// Whether `(x, y)` names a cell of the plane.
    pub open spec fn has(self, x: int, y: int) -> bool {
        0 <= x < self.spec_width() && 0 <= y < self.spec_height()
    }

    /// The grid is as large as its dimensions say.  Executable code learns
    /// this from `width`, `height` and `len`; this predicate lets a
    /// specification say it of a plane that it only describes.
    pub open spec fn shaped(self) -> bool {
        self@.len() == self.spec_width() * self.spec_height()
    }

    /// Same dimensions, whatever the samples.
    pub open spec fn same_shape<U>(self, other: Plane<U>) -> bool {
        self.spec_width() == other.spec_width() && self.spec_height() == other.spec_height()
    }
}

impl<T: Copy> Plane<T> {
    /// Wraps `samples` as a `width` by `height` plane.  Fails with
    /// `ShapeMismatch` unless `samples` holds exactly `width * height`
    /// values.
    pub fn new(width: usize, height: usize, samples: Vec<T>) -> (r: Result<Self, Error>)
        ensures
            r is Ok <==> samples@.len() == width * height,
            r is Err ==> r == Err::<Self, Error>(Error::ShapeMismatch),
            r is Ok ==> r.unwrap().spec_width() == width && r.unwrap().spec_height() == height
                && r.unwrap()@ == samples@,
    {
        let given: usize = samples.len();
        match width.checked_mul(height) {
            Some(n) => {
                if given == n {
                    Ok(Plane { width, height, samples })
                } else {
                    Err(Error::ShapeMismatch)
                }
            },
            None => Err(Error::ShapeMismatch),
        }
    }

    /// Wraps `samples`, which the caller has shown to hold one value per
    /// cell.
    pub(crate) fn from_parts(width: usize, height: usize, samples: Vec<T>) -> (r: Self)
        requires
            samples@.len() == width * height,
        ensures
            r.spec_width() == width,
            r.spec_height() == height,
            r@ == samples@,
            r.shaped(),
    {
        Plane { width, height, samples }
    }

    /// A `width` by `height` plane with every sample equal to `value`.
    /// Fails with `ShapeMismatch` when the cell count does not fit the
    /// machine's address range.
    pub fn filled(width: usize, height: usize, value: T) -> (r: Result<Self, Error>)
        ensures
            r is Ok <==> width * height <= usize::MAX,
            r is Err ==> r == Err::<Self, Error>(Error::ShapeMismatch),
            r is Ok ==> r.unwrap().spec_width() == width && r.unwrap().spec_height() == height
                && r.unwrap()@ == Seq::new((width * height) as nat, |i: int| value),
    {
        match width.checked_mul(height) {
            None => Err(Error::ShapeMismatch),
            Some(n) => {
                let mut samples: Vec<T> = Vec::new();
                let mut i: usize = 0;
                while i < n
                    invariant
                        i <= n,
                        samples@ == Seq::new(i as nat, |k: int| value),
                    decreases n - i,
                {
                    samples.push(value);
                    i += 1;
                    assert(samples@ =~= Seq::new(i as nat, |k: int| value));
                }
                Ok(Plane { width, height, samples })
            },
        }
    }

    /// Number of columns.
    pub fn width(&self) -> (w: usize)
        ensures
            w == self.spec_width(),
            self.shaped(),
    {
        proof {
            use_type_invariant(self);
        }
        self.width
    }

    /// Number of rows.
    pub fn height(&self) -> (h: usize)
        ensures
            h == self.spec_height(),
            self.shaped(),
    {
        proof {
            use_type_invariant(self);
        }
        self.height
    }

    /// Number of samples.
    pub fn len(&self) -> (n: usize)
        ensures
            n == self@.len(),
            self.shaped(),
    {
        proof {
            use_type_invariant(self);
        }
        self.samples.len()
    }

    /// The samples in raster order.
    pub fn as_slice(&self) -> (s: &[T])
        ensures
            s@ == self@,
    {
        self.samples.as_slice()
    }

    /// The sample in column `x` of row `y`, or `None` outside the plane.
    pub fn get(&self, x: usize, y: usize) -> (r: Option<T>)
        ensures
            r == (if self.has(x as int, y as int) {
                Some(self.at(x as int, y as int))
            } else {
                None
            }),
    {
        proof {
            use_type_invariant(self);
        }
        if x < self.width && y < self.height {
            proof {
                lemma_cell_index(self.width as int, self.height as int, x as int, y as int);
            }
            Some(self.samples[y * self.width + x])
        } else {
            None
        }
    }

    /// Stores `value` in column `x` of row `y` and returns the sample it
    /// replaces.  Outside the plane nothing changes and `None` is returned.
    pub fn set(&mut self, x: usize, y: usize, value: T) -> (r: Option<T>)
        ensures
            final(self).same_shape(*old(self)),
            old(self).has(x as int, y as int) ==> r == Some(old(self).at(x as int, y as int))
                && final(self)@ == old(self)@.update(
                cell_index(old(self).spec_width() as int, x as int, y as int),
                value,
            ),
            !old(self).has(x as int, y as int) ==> r is None && final(self)@ == old(self)@,
    {
        proof {
            use_type_invariant(&*self);
        }
        if x < self.width && y < self.height {
            proof {
                lemma_cell_index(self.width as int, self.height as int, x as int, y as int);
            }
            let i: usize = y * self.width + x;
            let previous = self.samples[i];
            self.samples[i] = value;
            Some(previous)
        } else {
            None
        }
    }

    /// The sample in column `x` of row `y`.
    pub fn cell(&self, x: usize, y: usize) -> (r: T)
        requires
            self.has(x as int, y as int),
        ensures
            r == self.at(x as int, y as int),
    {
        proof {
            use_type_invariant(self);
            lemma_cell_index(self.width as int, self.height as int, x as int, y as int);
        }
        self.samples[y * self.width + x]
    }

    /// Stores `value` in column `x` of row `y`; every other cell keeps its
    /// sample.
    pub fn put(&mut self, x: usize, y: usize, value: T)
        requires
            old(self).has(x as int, y as int),
        ensures
            final(self).same_shape(*old(self)),
            final(self).shaped(),
            final(self)@ == old(self)@.update(
                cell_index(old(self).spec_width() as int, x as int, y as int),
                value,
            ),
            forall|x2: int, y2: int|
                old(self).has(x2, y2) ==> #[trigger] final(self).at(x2, y2) == (if x2 == x && y2
                    == y {
                    value
                } else {
                    old(self).at(x2, y2)
                }),
    {
        proof {
            use_type_invariant(&*self);
            lemma_cell_index(self.width as int, self.height as int, x as int, y as int);
        }
        let i: usize = y * self.width + x;
        self.samples[i] = value;
        proof {
            let w = self.width as int;
            let h = self.height as int;
            assert forall|x2: int, y2: int| old(self).has(x2, y2) implies #[trigger] self.at(
                x2,
                y2,
            ) == (if x2 == x && y2 == y {
                value
            } else {
                old(self).at(x2, y2)
            }) by {
                lemma_cell_index(w, h, x2, y2);
                if x2 != x || y2 != y {
                    lemma_cell_index_distinct(w, x as int, y as int, x2, y2);
                }
            }
        }
    }

    /// A copy of the plane.
    pub fn duplicate(&self) -> (r: Self)
        ensures
            r@ == self@,
            r.same_shape(*self),
            r.shaped(),
    {
        proof {
            use_type_invariant(self);
        }
        let n: usize = self.samples.len();
        let mut samples: Vec<T> = Vec::with_capacity(n);
        let mut i: usize = 0;
        while i < n
            invariant
                i <= n,
                n == self.samples@.len(),
                samples@ == self.samples@.take(i as int),
            decreases n - i,
        {
            samples.push(self.samples[i]);
            i += 1;
            assert(samples@ =~= self.samples@.take(i as int));
        }
        assert(samples@ =~= self.samples@);
        Plane { width: self.width, height: self.height, samples }
    }

    /// The sample at raster index `i`.
    pub fn sample(&self, i: usize) -> (r: T)
        requires
            i < self@.len(),
        ensures
            r == self@[i as int],
    {
        self.samples[i]
    }

    /// Stores `value` at raster index `i`.
    pub fn set_sample(&mut self, i: usize, value: T)
        requires
            i < old(self)@.len(),
        ensures
            final(self)@ == old(self)@.update(i as int, value),
            final(self).same_shape(*old(self)),
    {
        proof {
            use_type_invariant(&*self);
        }
        self.samples[i] = value;
    }

    /// Whether `region` lies inside the plane.
    pub fn contains(&self, region: &Region) -> (r: bool)
        ensures
            r == region.within(self.spec_width(), self.spec_height()),
    {
        region.left <= self.width && region.width <= self.width - region.left
            && region.top <= self.height && region.height <= self.height - region.top
    }
}

} // verus!
