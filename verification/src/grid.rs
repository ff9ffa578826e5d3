//! A fixed-size two-dimensional boolean grid with bounds-checked access.

use vstd::prelude::*;

verus! {

/// Flat row-major storage: the cell at `(x, y)` lives at index `x + y * width`.
/// Width and height are fixed at construction.
pub struct BoolGrid2D {
    array: Vec<bool>,
    width: usize,
    height: usize,
}

/// A coordinate pair inside a `width` x `height` grid names a flat index
/// strictly below `width * height`.
proof fn lemma_index_in_range(w: int, h: int, x: int, y: int)
    requires
        0 <= x < w,
        0 <= y < h,
    ensures
        0 <= x + y * w < w * h,
{
    assert(0 <= y * w && x + y * w < w * h) by (nonlinear_arith)
        requires
            0 <= x < w,
            0 <= y < h,
    ;
}

/// Distinct in-bounds coordinate pairs name distinct flat indices.
proof fn lemma_index_injective(w: int, h: int, x1: int, y1: int, x2: int, y2: int)
    requires
        0 <= x1 < w,
        0 <= y1 < h,
        0 <= x2 < w,
        0 <= y2 < h,
        !(x1 == x2 && y1 == y2),
    ensures
        x1 + y1 * w != x2 + y2 * w,
{
    assert(x1 + y1 * w != x2 + y2 * w) by (nonlinear_arith)
        requires
            0 <= x1 < w,
            0 <= y1 < h,
            0 <= x2 < w,
            0 <= y2 < h,
            !(x1 == x2 && y1 == y2),
    ;
}

impl BoolGrid2D {
    /// The cells as a flat sequence of length `width * height`.
    pub closed spec fn cells(self) -> Seq<bool> {
        self.array@
    }

    pub closed spec fn spec_width(self) -> int {
        self.width as int
    }

    pub closed spec fn spec_height(self) -> int {
        self.height as int
    }

    /// The flat array holds exactly one cell per coordinate pair.
    pub open spec fn wf(self) -> bool {
        &&& 0 <= self.spec_width()
        &&& 0 <= self.spec_height()
        &&& self.cells().len() == self.spec_width() * self.spec_height()
        &&& self.spec_width() * self.spec_height() <= usize::MAX
    }

    pub open spec fn in_bounds(self, x: int, y: int) -> bool {
        0 <= x < self.spec_width() && 0 <= y < self.spec_height()
    }

    /// The cell at `(x, y)`: true when alive.
    pub open spec fn cell(self, x: int, y: int) -> bool {
        self.cells()[x + y * self.spec_width()]
    }

    /// A grid with the given dimensions and every cell dead.
    pub fn new(width: usize, height: usize) -> (g: BoolGrid2D)
        requires
            width * height <= usize::MAX,
        ensures
            g.wf(),
            g.spec_width() == width,
            g.spec_height() == height,
            forall|x: int, y: int| g.in_bounds(x, y) ==> !g.cell(x, y),
    {
        let n = width * height;
        let mut array: Vec<bool> = Vec::new();
        while array.len() < n
            invariant
                array@.len() <= n,
                forall|i: int| 0 <= i < array@.len() ==> !array@[i],
            decreases n - array@.len(),
        {
            array.push(false);
        }
        let g = BoolGrid2D { array, width, height };
        proof {
            assert forall|x: int, y: int| g.in_bounds(x, y) implies !g.cell(x, y) by {
                lemma_index_in_range(g.spec_width(), g.spec_height(), x, y);
            }
        }
        g
    }

    pub fn width(&self) -> (w: usize)
        ensures
            w == self.spec_width(),
    {
        self.width
    }

    pub fn height(&self) -> (h: usize)
        ensures
            h == self.spec_height(),
    {
        self.height
    }

    /// The flat index of `(x, y)`.
    pub fn get_index(&self, x: usize, y: usize) -> (i: usize)
        requires
            self.wf(),
            self.in_bounds(x as int, y as int),
        ensures
            i == x + y * self.spec_width(),
            i < self.cells().len(),
    {
        proof {
            lemma_index_in_range(self.spec_width(), self.spec_height(), x as int, y as int);
        }
        x + y * self.width
    }

    /// Bounds-checked read of the cell at `(x, y)`.
    pub fn get(&self, x: usize, y: usize) -> (b: bool)
        requires
            self.wf(),
            self.in_bounds(x as int, y as int),
        ensures
            b == self.cell(x as int, y as int),
    {
        let index = self.get_index(x, y);
        self.array[index]
    }

    /// Bounds-checked write of the cell at `(x, y)`; every other cell is
    /// left as it was.
    pub fn set(&mut self, x: usize, y: usize, val: bool)
        requires
            old(self).wf(),
            old(self).in_bounds(x as int, y as int),
        ensures
            final(self).wf(),
            final(self).spec_width() == old(self).spec_width(),
            final(self).spec_height() == old(self).spec_height(),
            final(self).cell(x as int, y as int) == val,
            forall|i: int, j: int|
                old(self).in_bounds(i, j) && !(i == x && j == y) ==> final(self).cell(i, j)
                    == old(self).cell(i, j),
    {
        let index = self.get_index(x, y);
        self.array.set(index, val);
        proof {
            assert forall|i: int, j: int|
                old(self).in_bounds(i, j) && !(i == x && j == y) implies self.cell(i, j) == old(
                self,
            ).cell(i, j) by {
                lemma_index_in_range(self.spec_width(), self.spec_height(), i, j);
                lemma_index_injective(
                    self.spec_width(),
                    self.spec_height(),
                    i,
                    j,
                    x as int,
                    y as int,
                );
            }
        }
    }
}

} // verus!
