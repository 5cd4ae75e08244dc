//! Integer grid coordinates and the Moore neighborhood.

use vstd::prelude::*;

verus! {

/// A two-dimensional integer coordinate. Points are plain values, equal by
/// their components; they index a `Field` and generate neighbor sets.
#[derive(Copy, Clone, PartialEq, Eq, Hash, Structural, Debug)]
pub struct Point {
    pub x: i32,
    pub y: i32,
}

impl Default for Point {
    /// The origin.
    fn default() -> (p: Point)
        ensures
            p.x == 0 && p.y == 0,
    {
        Point { x: 0, y: 0 }
    }
}

impl Point {
    /// Component-wise sum of two points.
    pub fn add(self, rhs: Point) -> (r: Point)
        requires
            i32::MIN <= self.x + rhs.x <= i32::MAX,
            i32::MIN <= self.y + rhs.y <= i32::MAX,
        ensures
            r.x == self.x + rhs.x,
            r.y == self.y + rhs.y,
    {
        Point { x: self.x + rhs.x, y: self.y + rhs.y }
    }

    /// The eight Moore-neighborhood coordinates around `self`, in a fixed
    /// order: left, top-left, top, top-right, right, bottom-right, bottom,
    /// bottom-left. Entries may lie outside any particular grid; a `Field`
    /// treats such coordinates as dead.
    pub fn neighbors(&self) -> (r: Vec<Point>)
        requires
            i32::MIN < self.x < i32::MAX,
            i32::MIN < self.y < i32::MAX,
        ensures
            r@ == spec_neighbors(*self),
    {
        let mut v: Vec<Point> = Vec::new();
        v.push(self.add(Point { x: -1, y: 0 }));
        v.push(self.add(Point { x: -1, y: -1 }));
        v.push(self.add(Point { x: 0, y: -1 }));
        v.push(self.add(Point { x: 1, y: -1 }));
        v.push(self.add(Point { x: 1, y: 0 }));
        v.push(self.add(Point { x: 1, y: 1 }));
        v.push(self.add(Point { x: 0, y: 1 }));
        v.push(self.add(Point { x: -1, y: 1 }));
        proof {
            assert(v@ =~= spec_neighbors(*self));
        }
        v
    }
}

/// The Moore neighborhood of `p` as a mathematical sequence, in the same
/// fixed order that `Point::neighbors` returns. Meaningful when the
/// coordinates of `p` are strictly inside the `i32` range, so that every
/// neighbor coordinate is representable.
pub open spec fn spec_neighbors(p: Point) -> Seq<Point> {
    seq![
        Point { x: (p.x - 1) as i32, y: p.y },
        Point { x: (p.x - 1) as i32, y: (p.y - 1) as i32 },
        Point { x: p.x, y: (p.y - 1) as i32 },
        Point { x: (p.x + 1) as i32, y: (p.y - 1) as i32 },
        Point { x: (p.x + 1) as i32, y: p.y },
        Point { x: (p.x + 1) as i32, y: (p.y + 1) as i32 },
        Point { x: p.x, y: (p.y + 1) as i32 },
        Point { x: (p.x - 1) as i32, y: (p.y + 1) as i32 },
    ]
}

/// The Chebyshev distance between two points: the larger of the absolute
/// coordinate differences.
pub open spec fn chebyshev(a: Point, b: Point) -> int {
    vstd::math::max(vstd::math::abs(a.x - b.x) as int, vstd::math::abs(a.y - b.y) as int)
}

/// The Moore neighborhood of a point consists of exactly eight pairwise
/// distinct points, none of which is the point itself, and each of which
/// lies at Chebyshev distance one from it.
pub proof fn lemma_neighbors_properties(p: Point)
    requires
        i32::MIN < p.x < i32::MAX,
        i32::MIN < p.y < i32::MAX,
    ensures
        spec_neighbors(p).len() == 8,
        forall|i: int, j: int|
            0 <= i < 8 && 0 <= j < 8 && i != j ==> spec_neighbors(p)[i] != spec_neighbors(p)[j],
        forall|i: int| 0 <= i < 8 ==> spec_neighbors(p)[i] != p,
        forall|i: int| 0 <= i < 8 ==> chebyshev(p, #[trigger] spec_neighbors(p)[i]) == 1,
{
    let s = spec_neighbors(p);
    assert forall|i: int, j: int|
        0 <= i < 8 && 0 <= j < 8 && i != j implies s[i] != s[j] by {
        assert(s[i].x != s[j].x || s[i].y != s[j].y);
    }
    assert forall|i: int| 0 <= i < 8 implies s[i] != p by {
        assert(s[i].x != p.x || s[i].y != p.y);
    }
    assert forall|i: int| 0 <= i < 8 implies chebyshev(p, #[trigger] s[i]) == 1 by {
        assert(vstd::math::abs(p.x - s[i].x) <= 1 && vstd::math::abs(p.y - s[i].y) <= 1);
        assert(vstd::math::abs(p.x - s[i].x) == 1 || vstd::math::abs(p.y - s[i].y) == 1);
    }
}

} // verus!
