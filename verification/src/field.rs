//! The bounded two-dimensional boolean grid.
//!
//! A `Field` stores one liveness flag per valid coordinate, densely, in
//! row-major order. Every operation is bounds-checked and total: reading an
//! out-of-range coordinate yields dead, writing one is silently ignored, so
//! the grid behaves as if surrounded by an infinite border of dead cells.

use vstd::prelude::*;
use crate::point::Point;

verus! {

/// A `width` x `height` grid of boolean cells. A coordinate `(x, y)` is
/// valid iff `0 <= x < width` and `0 <= y < height`; all other coordinates
/// are permanently dead. A zero-area field is valid and always dead.
pub struct Field {
    width: usize,
    height: usize,
    cells: Vec<bool>,
}

impl Field {
    /// Structural well-formedness: the dense storage covers the whole grid,
    /// and both dimensions fit in `i32` so that every valid coordinate is a
    /// representable `Point`. Established by `new` and kept by every method.
    pub closed spec fn wf(self) -> bool {
        &&& self.cells@.len() == self.width * self.height
        &&& self.width * self.height <= usize::MAX
        &&& self.width <= i32::MAX
        &&& self.height <= i32::MAX
    }

    /// The grid width.
    pub closed spec fn spec_width(self) -> int {
        self.width as int
    }

    /// The grid height.
    pub closed spec fn spec_height(self) -> int {
        self.height as int
    }

    /// Whether the integer coordinate `(x, y)` lies on the grid.
    pub open spec fn spec_in_bounds_xy(self, x: int, y: int) -> bool {
        0 <= x < self.spec_width() && 0 <= y < self.spec_height()
    }

    /// Whether the point lies on the grid.
    pub open spec fn spec_in_bounds(self, p: Point) -> bool {
        self.spec_in_bounds_xy(p.x as int, p.y as int)
    }

    /// The liveness of the cell at `(x, y)`: the stored flag on the grid,
    /// dead everywhere off it.
    pub closed spec fn spec_get_xy(self, x: int, y: int) -> bool {
        if self.spec_in_bounds_xy(x, y) {
            self.cells@[y * self.width + x]
        } else {
            false
        }
    }

    /// The liveness of the cell at point `p`.
    pub open spec fn spec_get(self, p: Point) -> bool {
        self.spec_get_xy(p.x as int, p.y as int)
    }

    /// A fresh grid of the given dimensions with every cell dead.
    /// `width * height == 0` is allowed and yields a field on which every
    /// coordinate is out of bounds.
    pub fn new(width: usize, height: usize) -> (f: Field)
        requires
            width <= i32::MAX,
            height <= i32::MAX,
            width * height <= usize::MAX,
        ensures
            f.wf(),
            f.spec_width() == width,
            f.spec_height() == height,
            forall|x: int, y: int| !(#[trigger] f.spec_get_xy(x, y)),
    {
        let n = width * height;
        let mut cells: Vec<bool> = Vec::new();
        while cells.len() < n
            invariant
                cells@.len() <= n,
                forall|i: int| 0 <= i < cells@.len() ==> !(#[trigger] cells@[i]),
            decreases n - cells@.len(),
        {
            cells.push(false);
        }
        let f = Field { width, height, cells };
        proof {
            assert forall|x: int, y: int| !(#[trigger] f.spec_get_xy(x, y)) by {
                if f.spec_in_bounds_xy(x, y) {
                    lemma_row_major_index_bound(x, y, width as int, height as int);
                }
            }
        }
        f
    }

    /// A grid of the given dimensions whose cell at valid `(x, y)` holds
    /// `cells[y * width + x]`.
    pub(crate) fn from_cells(width: usize, height: usize, cells: Vec<bool>) -> (f: Field)
        requires
            width <= i32::MAX,
            height <= i32::MAX,
            width * height <= usize::MAX,
            cells@.len() == width * height,
        ensures
            f.wf(),
            f.spec_width() == width,
            f.spec_height() == height,
            forall|x: int, y: int|
                #[trigger] f.spec_get_xy(x, y) == (f.spec_in_bounds_xy(x, y)
                    && cells@[y * width + x]),
    {
        Field { width, height, cells }
    }

    /// The grid width.
    pub fn width(&self) -> (w: usize)
        ensures
            w == self.spec_width(),
    {
        self.width
    }

    /// The grid height.
    pub fn height(&self) -> (h: usize)
        ensures
            h == self.spec_height(),
    {
        self.height
    }

    /// Whether `point` addresses a cell of this grid.
    pub fn in_bounds(&self, point: Point) -> (r: bool)
        ensures
            r == self.spec_in_bounds(point),
    {
        point.x >= 0 && (point.x as usize) < self.width && point.y >= 0
            && (point.y as usize) < self.height
    }

    /// Row-major storage index of an on-grid point.
    fn get_index(&self, point: Point) -> (i: usize)
        requires
            self.wf(),
            self.spec_in_bounds(point),
        ensures
            i == point.y * self.spec_width() + point.x,
            i < self.cells@.len(),
    {
        proof {
            lemma_row_major_index_bound(
                point.x as int,
                point.y as int,
                self.width as int,
                self.height as int,
            );
        }
        (point.y as usize) * self.width + (point.x as usize)
    }

    /// The value stored at `point`, or dead when `point` is off the grid.
    /// Out-of-range reads are not an error: they model "no such cell,
    /// therefore dead", which lets neighbor counting at the edges treat the
    /// world as bounded by death.
    pub fn get(&self, point: Point) -> (r: bool)
        requires
            self.wf(),
        ensures
            r == self.spec_get(point),
    {
        if self.in_bounds(point) {
            let i = self.get_index(point);
            self.cells[i]
        } else {
            false
        }
    }

    /// Stores `value` at `point`; a no-op when `point` is off the grid.
    pub fn set(&mut self, point: Point, value: bool)
        requires
            old(self).wf(),
        ensures
            final(self).wf(),
            set_rel(*old(self), *final(self), point, value),
    {
        if self.in_bounds(point) {
            let i = self.get_index(point);
            self.cells.set(i, value);
            proof {
                lemma_update_one_cell(*old(self), *self, point, value);
            }
        }
    }

    /// Toggles the value at `point`; a no-op when `point` is off the grid.
    pub fn flip(&mut self, point: Point)
        requires
            old(self).wf(),
        ensures
            final(self).wf(),
            flip_rel(*old(self), *final(self), point),
    {
        if self.in_bounds(point) {
            let i = self.get_index(point);
            let cur = self.cells[i];
            self.cells.set(i, !cur);
            proof {
                lemma_update_one_cell(*old(self), *self, point, !cur);
            }
        }
    }
}

/// How `set(p, value)` changes a field: the dimensions stay, the cell at
/// on-grid `p` now holds `value`, and every other cell keeps its value.
/// When `p` is off the grid nothing changes at all.
pub open spec fn set_rel(pre: Field, post: Field, p: Point, value: bool) -> bool {
    &&& post.spec_width() == pre.spec_width()
    &&& post.spec_height() == pre.spec_height()
    &&& forall|x: int, y: int|
        #[trigger] post.spec_get_xy(x, y) == if pre.spec_in_bounds(p) && x == p.x && y == p.y {
            value
        } else {
            pre.spec_get_xy(x, y)
        }
}

/// How `flip(p)` changes a field: the dimensions stay, the cell at
/// on-grid `p` is toggled, and every other cell keeps its value. When `p`
/// is off the grid nothing changes at all.
pub open spec fn flip_rel(pre: Field, post: Field, p: Point) -> bool {
    &&& post.spec_width() == pre.spec_width()
    &&& post.spec_height() == pre.spec_height()
    &&& forall|x: int, y: int|
        #[trigger] post.spec_get_xy(x, y) == if pre.spec_in_bounds(p) && x == p.x && y == p.y {
            !pre.spec_get_xy(x, y)
        } else {
            pre.spec_get_xy(x, y)
        }
}

/// Coordinates off the grid never report alive, whatever was stored
/// before by any sequence of writes: the world outside the grid is
/// permanently dead.
pub proof fn lemma_out_of_bounds_dead(f: Field, p: Point)
    requires
        !f.spec_in_bounds(p),
    ensures
        !f.spec_get(p),
{
}

/// Flipping the same point twice restores the field: every cell, the
/// flipped one included, reads as it did before the first flip.
pub proof fn lemma_flip_involution(f0: Field, f1: Field, f2: Field, p: Point)
    requires
        flip_rel(f0, f1, p),
        flip_rel(f1, f2, p),
    ensures
        f2.spec_width() == f0.spec_width(),
        f2.spec_height() == f0.spec_height(),
        forall|x: int, y: int| #[trigger] f2.spec_get_xy(x, y) == f0.spec_get_xy(x, y),
{
    assert forall|x: int, y: int| #[trigger] f2.spec_get_xy(x, y) == f0.spec_get_xy(x, y) by {
        assert(f1.spec_get_xy(x, y) == if f0.spec_in_bounds(p) && x == p.x && y == p.y {
            !f0.spec_get_xy(x, y)
        } else {
            f0.spec_get_xy(x, y)
        });
    }
}

/// A well-formed field's dimensions fit in `i32` and its area fits in
/// `usize`, so every valid coordinate is a representable `Point` and the
/// dense storage is addressable.
pub proof fn lemma_wf_dims(f: Field)
    requires
        f.wf(),
    ensures
        f.spec_width() <= i32::MAX,
        f.spec_height() <= i32::MAX,
        f.spec_width() * f.spec_height() <= usize::MAX,
{
}

/// The row-major index of an on-grid coordinate lies inside the storage.
proof fn lemma_row_major_index_bound(x: int, y: int, w: int, h: int)
    by (nonlinear_arith)
    requires
        0 <= x < w,
        0 <= y < h,
    ensures
        0 <= y * w + x < w * h,
{
}

/// Distinct on-grid coordinates have distinct row-major indices.
proof fn lemma_row_major_index_injective(x1: int, y1: int, x2: int, y2: int, w: int, h: int)
    by (nonlinear_arith)
    requires
        0 <= x1 < w,
        0 <= y1 < h,
        0 <= x2 < w,
        0 <= y2 < h,
        y1 * w + x1 == y2 * w + x2,
    ensures
        x1 == x2 && y1 == y2,
{
}

/// After overwriting the single storage slot of on-grid `point` with
/// `value`, the grid reads `value` there and is unchanged everywhere else.
proof fn lemma_update_one_cell(pre: Field, post: Field, point: Point, value: bool)
    requires
        pre.wf(),
        pre.spec_in_bounds(point),
        post.spec_width() == pre.spec_width(),
        post.spec_height() == pre.spec_height(),
        post.cells@ == pre.cells@.update(point.y * pre.spec_width() + point.x, value),
    ensures
        post.wf(),
        forall|x: int, y: int|
            #[trigger] post.spec_get_xy(x, y) == if x == point.x && y == point.y {
                value
            } else {
                pre.spec_get_xy(x, y)
            },
{
    let w = pre.spec_width();
    let h = pre.spec_height();
    lemma_row_major_index_bound(point.x as int, point.y as int, w, h);
    assert forall|x: int, y: int|
        #[trigger] post.spec_get_xy(x, y) == if x == point.x && y == point.y {
            value
        } else {
            pre.spec_get_xy(x, y)
        } by {
        if pre.spec_in_bounds_xy(x, y) {
            lemma_row_major_index_bound(x, y, w, h);
            if !(x == point.x && y == point.y) && y * w + x == point.y * w + point.x {
                lemma_row_major_index_injective(x, y, point.x as int, point.y as int, w, h);
            }
        }
    }
}

} // verus!
