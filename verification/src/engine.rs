//! The update engine: one application of the birth/survival rule per tick.
//!
//! Every tick reads a frozen snapshot of the previous generation and writes
//! the next one into a separate buffer, so no cell's neighbor count can
//! observe partially-updated state. The finished buffer is published in one
//! step, after which the generation counter increments.

use vstd::prelude::*;
use crate::field::Field;
use crate::field::flip_rel;
use crate::field::set_rel;
use crate::point::Point;
use crate::point::spec_neighbors;

verus! {

/// One as a count when the cell is alive, zero when dead.
pub open spec fn alive_as_count(b: bool) -> nat {
    if b {
        1
    } else {
        0
    }
}

/// The number of alive cells among the eight Moore neighbors of `(x, y)`
/// in `f`. Off-grid neighbors read as dead, so cells at the edge simply
/// see a smaller live neighborhood.
pub open spec fn neighbor_count(f: Field, x: int, y: int) -> nat {
    alive_as_count(f.spec_get_xy(x - 1, y)) + alive_as_count(f.spec_get_xy(x - 1, y - 1))
        + alive_as_count(f.spec_get_xy(x, y - 1)) + alive_as_count(f.spec_get_xy(x + 1, y - 1))
        + alive_as_count(f.spec_get_xy(x + 1, y)) + alive_as_count(f.spec_get_xy(x + 1, y + 1))
        + alive_as_count(f.spec_get_xy(x, y + 1)) + alive_as_count(f.spec_get_xy(x - 1, y + 1))
}

/// The classic birth/survival rule: an alive cell survives with two or
/// three alive neighbors, a dead cell is born with exactly three, and
/// every other combination is dead.
pub open spec fn rule(alive: bool, count: nat) -> bool {
    if alive {
        count == 2 || count == 3
    } else {
        count == 3
    }
}

/// The liveness of the cell at `(x, y)` in the generation after `f`: the
/// rule applied to `f`'s frozen state, and dead off the grid. This is a
/// function of the previous generation alone, which is what makes the
/// sweep order-independent.
pub open spec fn spec_next(f: Field, x: int, y: int) -> bool {
    f.spec_in_bounds_xy(x, y) && rule(f.spec_get_xy(x, y), neighbor_count(f, x, y))
}

/// How one completed sweep relates the previous generation `pre` to the
/// next one `post`: the dimensions stay, and every cell of `post` is the
/// rule applied to `pre`'s frozen state.
pub open spec fn sweep_rel(pre: Field, post: Field) -> bool {
    &&& post.spec_width() == pre.spec_width()
    &&& post.spec_height() == pre.spec_height()
    &&& forall|x: int, y: int| #[trigger] post.spec_get_xy(x, y) == spec_next(pre, x, y)
}

/// Order-independence of the sweep: any two complete next generations
/// computed from the same frozen field agree on every cell, however the
/// cells were grouped among workers. The next value of a cell is a
/// function of the previous generation alone, so generation isolation
/// makes the result of a sweep deterministic.
pub proof fn lemma_sweep_order_independent(f: Field, g1: Field, g2: Field)
    requires
        sweep_rel(f, g1),
        sweep_rel(f, g2),
    ensures
        g1.spec_width() == g2.spec_width(),
        g1.spec_height() == g2.spec_height(),
        forall|x: int, y: int| #[trigger] g1.spec_get_xy(x, y) == g2.spec_get_xy(x, y),
{
}

/// No spontaneous birth: a sweep of an all-dead field leaves every cell
/// dead.
pub proof fn lemma_all_dead_stays_dead(f: Field, g: Field)
    requires
        forall|x: int, y: int| !(#[trigger] f.spec_get_xy(x, y)),
        sweep_rel(f, g),
    ensures
        forall|x: int, y: int| !(#[trigger] g.spec_get_xy(x, y)),
{
    assert forall|x: int, y: int| !(#[trigger] g.spec_get_xy(x, y)) by {
        assert(neighbor_count(f, x, y) == 0);
    }
}

/// The number of alive cells among the eight Moore neighbors of `p`,
/// read from the frozen field `f`.
fn count_alive_neighbors(f: &Field, p: Point) -> (n: u8)
    requires
        f.wf(),
        i32::MIN < p.x < i32::MAX,
        i32::MIN < p.y < i32::MAX,
    ensures
        n == neighbor_count(*f, p.x as int, p.y as int),
{
    let ns = p.neighbors();
    let mut n: u8 = 0;
    let mut i: usize = 0;
    while i < 8
        invariant
            f.wf(),
            ns@ == spec_neighbors(p),
            i <= 8,
            n <= i,
            n == partial_count(*f, ns@, i as int),
        decreases 8 - i,
    {
        if f.get(ns[i]) {
            n = n + 1;
        }
        i = i + 1;
    }
    proof {
        lemma_partial_count_full(*f, p);
    }
    n
}

/// The number of alive cells of `f` among the first `i` points of `ns`.
spec fn partial_count(f: Field, ns: Seq<Point>, i: int) -> nat
    decreases i,
{
    if i <= 0 {
        0
    } else {
        partial_count(f, ns, i - 1) + alive_as_count(f.spec_get(ns[i - 1]))
    }
}

/// Counting alive cells over the whole neighbor sequence of `p` yields
/// exactly the neighbor count of `p`'s coordinates.
proof fn lemma_partial_count_full(f: Field, p: Point)
    requires
        i32::MIN < p.x < i32::MAX,
        i32::MIN < p.y < i32::MAX,
    ensures
        partial_count(f, spec_neighbors(p), 8) == neighbor_count(f, p.x as int, p.y as int),
{
    let ns = spec_neighbors(p);
    assert(partial_count(f, ns, 8) == partial_count(f, ns, 7) + alive_as_count(f.spec_get(ns[7])));
    assert(partial_count(f, ns, 7) == partial_count(f, ns, 6) + alive_as_count(f.spec_get(ns[6])));
    assert(partial_count(f, ns, 6) == partial_count(f, ns, 5) + alive_as_count(f.spec_get(ns[5])));
    assert(partial_count(f, ns, 5) == partial_count(f, ns, 4) + alive_as_count(f.spec_get(ns[4])));
    assert(partial_count(f, ns, 4) == partial_count(f, ns, 3) + alive_as_count(f.spec_get(ns[3])));
    assert(partial_count(f, ns, 3) == partial_count(f, ns, 2) + alive_as_count(f.spec_get(ns[2])));
    assert(partial_count(f, ns, 2) == partial_count(f, ns, 1) + alive_as_count(f.spec_get(ns[1])));
    assert(partial_count(f, ns, 1) == partial_count(f, ns, 0) + alive_as_count(f.spec_get(ns[0])));
    assert(partial_count(f, ns, 0) == 0);
}

/// The next-generation value of the single cell at `p`, computed from the
/// frozen field `f`. This is the unit of work a sweep worker performs for
/// each cell it owns; it reads `f` only, so any partition of the cells
/// among workers computes the same next generation.
pub fn next_cell_value(f: &Field, p: Point) -> (b: bool)
    requires
        f.wf(),
    ensures
        b == spec_next(*f, p.x as int, p.y as int),
{
    if !f.in_bounds(p) {
        return false;
    }
    proof {
        crate::field::lemma_wf_dims(*f);
    }
    let alive = f.get(p);
    let n = count_alive_neighbors(f, p);
    if alive {
        n == 2 || n == 3
    } else {
        n == 3
    }
}

/// A monotonic tick counter: starts at zero, incremented by exactly one
/// per completed sweep, never decremented or reset.
pub struct Generation {
    pub count: i32,
}

/// The simulation state: the current field and the tick count. The engine
/// owns the sole mutable world-state; seeding and querying go through it
/// between ticks, and `advance` evolves it by one generation.
pub struct UpdateEngine {
    field: Field,
    generation: Generation,
}

impl UpdateEngine {
    /// Structural well-formedness of the engine: its field is well-formed
    /// and the tick count is non-negative.
    pub closed spec fn wf(self) -> bool {
        &&& self.field.wf()
        &&& self.generation.count >= 0
    }

    /// The current field.
    pub closed spec fn spec_field(self) -> Field {
        self.field
    }

    /// The number of completed sweeps.
    pub closed spec fn spec_generation(self) -> int {
        self.generation.count as int
    }

    /// A fresh simulation: an all-dead grid of the given dimensions at
    /// generation zero.
    pub fn new(width: usize, height: usize) -> (e: UpdateEngine)
        requires
            width <= i32::MAX,
            height <= i32::MAX,
            width * height <= usize::MAX,
        ensures
            e.wf(),
            e.spec_field().spec_width() == width,
            e.spec_field().spec_height() == height,
            forall|x: int, y: int| !(#[trigger] e.spec_field().spec_get_xy(x, y)),
            e.spec_generation() == 0,
    {
        UpdateEngine { field: Field::new(width, height), generation: Generation { count: 0 } }
    }

    /// The liveness of the cell at `p`, dead off the grid.
    pub fn get(&self, p: Point) -> (r: bool)
        requires
            self.wf(),
        ensures
            r == self.spec_field().spec_get(p),
    {
        self.field.get(p)
    }

    /// Stores `value` at `p` in the current field; a no-op off the grid.
    /// Seeding happens through this between ticks; the tick count is
    /// untouched.
    pub fn set(&mut self, p: Point, value: bool)
        requires
            old(self).wf(),
        ensures
            final(self).wf(),
            set_rel(old(self).spec_field(), final(self).spec_field(), p, value),
            final(self).spec_generation() == old(self).spec_generation(),
    {
        self.field.set(p, value);
    }

    /// Toggles the cell at `p` in the current field; a no-op off the grid.
    pub fn flip(&mut self, p: Point)
        requires
            old(self).wf(),
        ensures
            final(self).wf(),
            flip_rel(old(self).spec_field(), final(self).spec_field(), p),
            final(self).spec_generation() == old(self).spec_generation(),
    {
        self.field.flip(p);
    }

    /// The number of completed sweeps.
    pub fn generation(&self) -> (g: i32)
        requires
            self.wf(),
        ensures
            g == self.spec_generation(),
    {
        self.generation.count
    }

    /// One tick: applies the rule to every cell against the frozen current
    /// field, publishes the finished buffer as the new current field in one
    /// step, and increments the generation counter. No cell's evaluation
    /// ever observes another cell's update from the same sweep.
    pub fn advance(&mut self)
        requires
            old(self).wf(),
            old(self).spec_generation() < i32::MAX,
        ensures
            final(self).wf(),
            sweep_rel(old(self).spec_field(), final(self).spec_field()),
            final(self).spec_generation() == old(self).spec_generation() + 1,
    {
        let next = sweep(&self.field);
        self.field = next;
        self.generation.count = self.generation.count + 1;
    }
}

/// One full sweep: the generation after `f`, written into a fresh buffer
/// while `f` stays frozen.
fn sweep(f: &Field) -> (next: Field)
    requires
        f.wf(),
    ensures
        next.wf(),
        sweep_rel(*f, next),
{
    let width = f.width();
    let height = f.height();
    let ghost w = width as int;
    let ghost h = height as int;
    proof {
        crate::field::lemma_wf_dims(*f);
    }
    let mut cells: Vec<bool> = Vec::new();
    let mut y: usize = 0;
    while y < height
        invariant
            f.wf(),
            w == f.spec_width(),
            h == f.spec_height(),
            w <= i32::MAX,
            h <= i32::MAX,
            width == w,
            height == h,
            y <= height,
            cells@.len() == y * w,
            forall|xx: int, yy: int|
                0 <= xx < w && 0 <= yy < y ==> cells@[yy * w + xx] == spec_next(*f, xx, yy),
        decreases height - y,
    {
        let mut x: usize = 0;
        while x < width
            invariant
                f.wf(),
                w == f.spec_width(),
                h == f.spec_height(),
                w <= i32::MAX,
                h <= i32::MAX,
                width == w,
                height == h,
                y < height,
                x <= width,
                cells@.len() == y * w + x,
                forall|xx: int, yy: int|
                    0 <= xx < w && 0 <= yy < y ==> cells@[yy * w + xx] == spec_next(*f, xx, yy),
                forall|xx: int| 0 <= xx < x ==> cells@[y * w + xx] == spec_next(*f, xx, y as int),
            decreases width - x,
        {
            let p = Point { x: x as i32, y: y as i32 };
            let b = next_cell_value(f, p);
            cells.push(b);
            proof {
                lemma_row_in_prefix(w, h, y as int, x as int);
                assert forall|xx: int, yy: int|
                    0 <= xx < w && 0 <= yy < y implies cells@[yy * w + xx] == spec_next(
                    *f,
                    xx,
                    yy,
                ) by {
                    lemma_row_in_prefix(w, y as int, yy, xx);
                }
            }
            x = x + 1;
        }
        proof {
            assert(cells@.len() == y * w + w);
            assert((y + 1) * w == y * w + w) by (nonlinear_arith);
        }
        y = y + 1;
    }
    proof {
        crate::field::lemma_wf_dims(*f);
        assert(cells@.len() == h * w);
        assert(h * w == w * h) by (nonlinear_arith);
    }
    let next = Field::from_cells(width, height, cells);
    proof {
        assert forall|x: int, y: int|
            #[trigger] next.spec_get_xy(x, y) == spec_next(*f, x, y) by {
            if f.spec_in_bounds_xy(x, y) {
                lemma_row_in_prefix(w, h, y, x);
            }
        }
    }
    next
}

/// Inside a `w` x `h` grid, the row-major index of `(x, y)` stays below
/// the end of row `y` and at or above its start.
proof fn lemma_row_in_prefix(w: int, h: int, y: int, x: int)
    by (nonlinear_arith)
    requires
        0 <= x < w,
        0 <= y < h,
    ensures
        y * w <= y * w + x < (y + 1) * w <= h * w,
{
}

} // verus!
