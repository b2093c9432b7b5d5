//! A dense row-major raster.

use vstd::prelude::*;

verus! {

/// A `width × height` raster stored row by row: cell `(x, y)` lives at index
/// `y · width + x`. The buffer's length never changes after construction.
#[derive(Debug)]
pub struct Grid2D<T> {
    width: usize,
    height: usize,
    data: Vec<T>,
}

impl<T> View for Grid2D<T> {
    type V = Seq<T>;

    /// The cells in row-major order.
    closed spec fn view(&self) -> Seq<T> {
        self.data@
    }
}

/// `y · w + x` stays below `w · h` for every cell of a `w × h` raster.
pub proof fn lemma_cell_index(x: int, y: int, w: int, h: int)
    requires
        0 <= x < w,
        0 <= y < h,
    ensures
        0 <= y * w + x < w * h,
        (y * w + x) % w == x,
        (y * w + x) / w == y,
{
    assert(y * w + x < w * h) by (nonlinear_arith)
        requires
            0 <= x < w,
            0 <= y < h,
    ;
    assert(0 <= y * w) by (nonlinear_arith)
        requires
            0 <= y,
            0 < w,
    ;
    vstd::arithmetic::div_mod::lemma_fundamental_div_mod_converse(y * w + x, w, y, x);
}

/// Every index below `w · h` is the index of exactly one cell.
pub proof fn lemma_index_cell(k: int, w: int, h: int)
    requires
        0 <= k < w * h,
        0 < w,
    ensures
        0 <= k % w < w,
        0 <= k / w < h,
        (k / w) * w + k % w == k,
{
    vstd::arithmetic::div_mod::lemma_fundamental_div_mod(k, w);
    vstd::arithmetic::div_mod::lemma_mod_bound(k, w);
    let q = k / w;
    assert(w * q == q * w) by (nonlinear_arith);
    assert(0 <= q < h) by (nonlinear_arith)
        requires
            0 <= k < w * h,
            0 < w,
            k == q * w + k % w,
            0 <= k % w < w,
    ;
}

impl<T> Grid2D<T> {
    /// Number of columns.
    pub closed spec fn spec_width(&self) -> usize {
        self.width
    }

    /// Number of rows.
    pub closed spec fn spec_height(&self) -> usize {
        self.height
    }

    /// The buffer holds exactly one value per cell.
    pub open spec fn wf(&self) -> bool {
        self@.len() == self.spec_width() * self.spec_height()
    }

    /// Whether `(x, y)` names a cell.
    pub open spec fn has(&self, x: int, y: int) -> bool {
        0 <= x < self.spec_width() && 0 <= y < self.spec_height()
    }

    /// The value of cell `(x, y)`.
    pub open spec fn at(&self, x: int, y: int) -> T {
        self@[y * self.spec_width() + x]
    }

    /// Whether two rasters have the same shape.
    pub open spec fn same_shape<U>(&self, other: &Grid2D<U>) -> bool {
        self.spec_width() == other.spec_width() && self.spec_height() == other.spec_height()
    }

    /// A raster with every cell a clone of `value`.
    pub fn new(width: usize, height: usize, value: T) -> (g: Grid2D<T>) where T: Clone
        requires
            width * height <= usize::MAX,
        ensures
            g.wf(),
            g.spec_width() == width,
            g.spec_height() == height,
            forall|i: int| 0 <= i < g@.len() ==> cloned(value, #[trigger] g@[i]),
            forall|x: int, y: int| g.has(x, y) ==> cloned(value, #[trigger] g.at(x, y)),
    {
        let len: usize = width * height;
        let g = Grid2D { width, height, data: vec![value; len] };
        proof {
            assert forall|x: int, y: int| g.has(x, y) implies cloned(
                value,
                #[trigger] g.at(x, y),
            ) by {
                lemma_cell_index(x, y, width as int, height as int);
            }
        }
        g
    }

    /// Number of columns.
    #[verifier::when_used_as_spec(spec_width)]
    pub fn width(&self) -> (w: usize)
        ensures
            w == self.spec_width(),
    {
        self.width
    }

    /// Number of rows.
    #[verifier::when_used_as_spec(spec_height)]
    pub fn height(&self) -> (h: usize)
        ensures
            h == self.spec_height(),
    {
        self.height
    }

    /// Number of cells.
    pub fn len(&self) -> (n: usize)
        ensures
            n == self@.len(),
    {
        self.data.len()
    }

    /// Whether the raster has no cell.
    pub fn is_empty(&self) -> (r: bool)
        ensures
            r == (self@.len() == 0),
    {
        self.data.len() == 0
    }

    /// Buffer index of cell `(x, y)`.
    pub fn idx(&self, x: usize, y: usize) -> (i: usize)
        requires
            self.wf(),
            self.has(x as int, y as int),
        ensures
            i == y * self.spec_width() + x,
            i < self@.len(),
    {
        let n: usize = self.data.len();
        proof {
            lemma_cell_index(x as int, y as int, self.width as int, self.height as int);
            assert(0 <= y * self.width) by (nonlinear_arith);
            assert(y * self.width + x < n);
        }
        y * self.width + x
    }

    /// Whether the signed pair `(x, y)` names a cell.
    pub fn in_bounds(&self, x: isize, y: isize) -> (r: bool)
        ensures
            r == self.has(x as int, y as int),
    {
        x >= 0 && y >= 0 && (x as usize) < self.width && (y as usize) < self.height
    }

    /// The value of cell `(x, y)`.
    pub fn get(&self, x: usize, y: usize) -> (v: &T)
        requires
            self.wf(),
            self.has(x as int, y as int),
        ensures
            *v == self.at(x as int, y as int),
    {
        let i: usize = self.idx(x, y);
        &self.data[i]
    }

    /// Mutable access to cell `(x, y)`; no other cell can change through it.
    pub fn get_mut(&mut self, x: usize, y: usize) -> (v: &mut T)
        requires
            old(self).wf(),
            old(self).has(x as int, y as int),
        ensures
            *v == old(self).at(x as int, y as int),
            final(self)@ == old(self)@.update(y * old(self).spec_width() + x, *final(v)),
            final(self).same_shape(old(self)),
            final(self).wf(),
    {
        let i: usize = self.idx(x, y);
        &mut self.data[i]
    }

    /// Overwrites cell `(x, y)`.
    pub fn set(&mut self, x: usize, y: usize, value: T)
        requires
            old(self).wf(),
            old(self).has(x as int, y as int),
        ensures
            final(self)@ == old(self)@.update(y * old(self).spec_width() + x, value),
            final(self).same_shape(old(self)),
            final(self).wf(),
            forall|x2: int, y2: int|
                old(self).has(x2, y2) ==> #[trigger] final(self).at(x2, y2) == if x2 == x && y2
                    == y {
                    value
                } else {
                    old(self).at(x2, y2)
                },
    {
        let i: usize = self.idx(x, y);
        proof {
            assert forall|x2: int, y2: int| old(self).has(x2, y2) implies (y2 * self.width + x2
                == i <==> x2 == x && y2 == y) && 0 <= y2 * self.width + x2 < self.data@.len() by {
                lemma_cell_index(x2, y2, self.width as int, self.height as int);
                lemma_cell_index(x as int, y as int, self.width as int, self.height as int);
            }
        }
        self.data[i] = value;
    }

    /// The cells in row-major order.
    pub fn as_slice(&self) -> (s: &[T])
        ensures
            s@ == self@,
    {
        self.data.as_slice()
    }

    /// The cells in row-major order, writable in place.
    pub fn as_mut_slice(&mut self) -> (s: &mut [T])
        ensures
            s@ == old(self)@,
            final(s)@ == final(self)@,
            final(self).same_shape(old(self)),
    {
        self.data.as_mut_slice()
    }

    /// Overwrites every cell with a clone of `value`.
    pub fn fill(&mut self, value: T) where T: Clone
        ensures
            final(self)@.len() == old(self)@.len(),
            final(self).same_shape(old(self)),
            forall|i: int| 0 <= i < final(self)@.len() ==> cloned(value, #[trigger] final(self)@[i]),
    {
        let n: usize = self.data.len();
        let mut i: usize = 0;
        while i < n
            invariant
                i <= n,
                n == self.data@.len(),
                self.width == old(self).width,
                self.height == old(self).height,
                forall|j: int| 0 <= j < i ==> cloned(value, #[trigger] self.data@[j]),
            decreases n - i,
        {
            self.data[i] = value.clone();
            i += 1;
        }
    }

    /// The coordinates of every cell, row by row.
    pub fn iter_coords(&self) -> (cells: Vec<(usize, usize)>)
        requires
            self.wf(),
        ensures
            cells@.len() == self@.len(),
            forall|k: int|
                0 <= k < cells@.len() ==> (#[trigger] cells@[k]).0 == k % (self.spec_width() as int)
                    && cells@[k].1 == k / (self.spec_width() as int),
    {
        let mut cells: Vec<(usize, usize)> = Vec::new();
        let mut y: usize = 0;
        while y < self.height
            invariant
                self.wf(),
                y <= self.height,
                cells@.len() == y * self.width,
                forall|k: int|
                    0 <= k < cells@.len() ==> (#[trigger] cells@[k]).0 == k % (self.width as int)
                        && cells@[k].1 == k / (self.width as int),
            decreases self.height - y,
        {
            let mut x: usize = 0;
            while x < self.width
                invariant
                    self.wf(),
                    y < self.height,
                    x <= self.width,
                    cells@.len() == y * self.width + x,
                    forall|k: int|
                        0 <= k < cells@.len() ==> (#[trigger] cells@[k]).0 == k % (
                        self.width as int) && cells@[k].1 == k / (self.width as int),
                decreases self.width - x,
            {
                proof {
                    lemma_cell_index(x as int, y as int, self.width as int, self.height as int);
                }
                cells.push((x, y));
                x += 1;
            }
            assert((y + 1) * self.width == y * self.width + self.width) by (nonlinear_arith);
            y += 1;
        }
        assert(y * self.width == self.width * self.height) by (nonlinear_arith)
            requires
                y == self.height,
        ;
        cells
    }
}

impl<T: Clone> Clone for Grid2D<T> {
    /// A raster of the same shape whose cells are clones of this one's.
    fn clone(&self) -> (g: Grid2D<T>)
        ensures
            g.same_shape(self),
            g@.len() == self@.len(),
            forall|i: int| 0 <= i < self@.len() ==> cloned(#[trigger] self@[i], g@[i]),
    {
        Grid2D { width: self.width, height: self.height, data: self.data.clone() }
    }
}

} // verus!
