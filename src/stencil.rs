use vstd::prelude::*;
use vstd::arithmetic::div_mod::{lemma_fundamental_div_mod, lemma_fundamental_div_mod_converse};
use crate::grid::{cell, interior, lemma_interior_cell, Grid};

verus! {

/// The value a relaxation or gradient stencil reads in place of neighbour
/// `other` of cell `own`: the neighbour itself, or the cell's own value
/// when the neighbour is solid (zero gradient at walls).
pub open spec fn read_cell(mask: Seq<bool>, own: int, other: int) -> int {
    if mask[other] {
        own
    } else {
        other
    }
}

/// The five-point stencil of an interior cell, with solid neighbours
/// already replaced by the cell itself.
#[derive(Debug, Clone, Copy, PartialEq, Eq, Structural)]
pub struct Stencil {
    /// Column of the cell.
    pub x: usize,
    /// Row of the cell.
    pub y: usize,
    /// Index of the cell.
    pub center: usize,
    /// Whether the cell itself is solid; solid cells are not updated.
    pub solid: bool,
    /// Index read for the neighbour at `x - 1`.
    pub left: usize,
    /// Index read for the neighbour at `x + 1`.
    pub right: usize,
    /// Index read for the neighbour at `y - 1`.
    pub up: usize,
    /// Index read for the neighbour at `y + 1`.
    pub down: usize,
}

/// `s` is the stencil of interior cell `(x, y)` under obstacle mask `m`.
pub open spec fn is_stencil_of(s: Stencil, n: int, m: Seq<bool>, x: int, y: int) -> bool {
    let c = cell(n, x, y);
    &&& s.x == x
    &&& s.y == y
    &&& s.center == c
    &&& s.solid == m[c]
    &&& s.left == read_cell(m, c, c - 1)
    &&& s.right == read_cell(m, c, c + 1)
    &&& s.up == read_cell(m, c, c - n)
    &&& s.down == read_cell(m, c, c + n)
}

/// Column of the `k`-th cell of a row-major sweep over the interior.
pub open spec fn sweep_x(n: int, k: int) -> int {
    1 + k % (n - 2)
}

/// Row of the `k`-th cell of a row-major sweep over the interior.
pub open spec fn sweep_y(n: int, k: int) -> int {
    1 + k / (n - 2)
}

/// Position of interior cell `(x, y)` in a row-major sweep over the
/// interior.
pub open spec fn sweep_pos(n: int, x: int, y: int) -> int {
    (y - 1) * (n - 2) + (x - 1)
}

/// A row-major sweep visits every interior cell exactly once: interior cell
/// `(x, y)` stands at position `sweep_pos(n, x, y)`, and the cell at each
/// position `k` of the sweep is interior and stands at `k`. With `sweep`'s
/// contract this means `sweep` holds one stencil for each interior cell.
pub proof fn lemma_sweep_visits_each_cell_once(n: int)
    requires
        n >= 3,
    ensures
        forall|x: int, y: int|
            interior(n, x, y) ==> {
                &&& 0 <= #[trigger] sweep_pos(n, x, y) < (n - 2) * (n - 2)
                &&& sweep_x(n, sweep_pos(n, x, y)) == x
                &&& sweep_y(n, sweep_pos(n, x, y)) == y
            },
        forall|k: int|
            0 <= k < (n - 2) * (n - 2) ==> {
                &&& interior(n, #[trigger] sweep_x(n, k), sweep_y(n, k))
                &&& sweep_pos(n, sweep_x(n, k), sweep_y(n, k)) == k
            },
{
    let w = n - 2;
    assert forall|x: int, y: int| interior(n, x, y) implies {
        &&& 0 <= #[trigger] sweep_pos(n, x, y) < w * w
        &&& sweep_x(n, sweep_pos(n, x, y)) == x
        &&& sweep_y(n, sweep_pos(n, x, y)) == y
    } by {
        assert(0 <= (y - 1) * w && (y - 1) * w + w <= w * w) by (nonlinear_arith)
            requires
                1 <= y <= w,
                w >= 1,
        ;
        lemma_fundamental_div_mod_converse(sweep_pos(n, x, y), w, y - 1, x - 1);
    }
    assert forall|k: int| 0 <= k < w * w implies {
        &&& interior(n, #[trigger] sweep_x(n, k), sweep_y(n, k))
        &&& sweep_pos(n, sweep_x(n, k), sweep_y(n, k)) == k
    } by {
        lemma_fundamental_div_mod(k, w);
        let q = k / w;
        let r = k % w;
        assert(0 <= r < w);
        assert(0 <= q < w) by (nonlinear_arith)
            requires
                k == w * q + r,
                0 <= r < w,
                0 <= k < w * w,
                w >= 1,
        ;
        assert(sweep_pos(n, 1 + r, 1 + q) == q * w + r);
        assert(q * w == w * q) by (nonlinear_arith);
    }
}

impl Grid {
    /// The stencil of interior cell `(x, y)`.
    pub fn stencil(&self, x: usize, y: usize) -> (r: Stencil)
        requires
            self.wf(),
            interior(self.n(), x as int, y as int),
        ensures
            is_stencil_of(r, self.n(), self.obstacle_mask(), x as int, y as int),
            r.left < self.n() * self.n(),
            r.right < self.n() * self.n(),
            r.up < self.n() * self.n(),
            r.down < self.n() * self.n(),
    {
        proof {
            lemma_interior_cell(self.n(), x as int, y as int);
        }
        let n: usize = self.get_size();
        let c: usize = x + y * n;
        let left: usize = if self.is_obstacle(c - 1) { c } else { c - 1 };
        let right: usize = if self.is_obstacle(c + 1) { c } else { c + 1 };
        let up: usize = if self.is_obstacle(c - n) { c } else { c - n };
        let down: usize = if self.is_obstacle(c + n) { c } else { c + n };
        Stencil { x, y, center: c, solid: self.is_obstacle(c), left, right, up, down }
    }

    /// The stencils of all interior cells in sweep order: row by row, and
    /// within a row by increasing column.
    pub fn sweep(&self) -> (r: Vec<Stencil>)
        requires
            self.wf(),
        ensures
            r@.len() == (self.n() - 2) * (self.n() - 2),
            forall|k: int|
                0 <= k < r@.len() ==> is_stencil_of(
                    #[trigger] r@[k],
                    self.n(),
                    self.obstacle_mask(),
                    sweep_x(self.n(), k),
                    sweep_y(self.n(), k),
                ),
            forall|k: int|
                #![trigger r@[k]]
                0 <= k < r@.len() ==> {
                    &&& interior(self.n(), sweep_x(self.n(), k), sweep_y(self.n(), k))
                    &&& r@[k].center < self.n() * self.n()
                    &&& r@[k].left < self.n() * self.n()
                    &&& r@[k].right < self.n() * self.n()
                    &&& r@[k].up < self.n() * self.n()
                    &&& r@[k].down < self.n() * self.n()
                },
    {
        let n: usize = self.get_size();
        let w: usize = n - 2;
        let ghost nn = n as int;
        let mut r: Vec<Stencil> = Vec::new();
        let mut y: usize = 1;
        while y < n - 1
            invariant
                self.wf(),
                nn == self.n(),
                n == nn,
                w == nn - 2,
                1 <= y <= nn - 1,
                r@.len() == (y - 1) * w,
                forall|k: int|
                    0 <= k < r@.len() ==> is_stencil_of(
                        #[trigger] r@[k],
                        nn,
                        self.obstacle_mask(),
                        sweep_x(nn, k),
                        sweep_y(nn, k),
                    ) && interior(nn, sweep_x(nn, k), sweep_y(nn, k)) && r@[k].center < nn * nn
                        && r@[k].left < nn * nn && r@[k].right < nn * nn && r@[k].up < nn * nn
                        && r@[k].down < nn * nn,
            decreases n - 1 - y,
        {
            let mut x: usize = 1;
            while x < n - 1
                invariant
                    self.wf(),
                    nn == self.n(),
                    n == nn,
                    w == nn - 2,
                    1 <= y < nn - 1,
                    1 <= x <= nn - 1,
                    r@.len() == (y - 1) * w + (x - 1),
                    forall|k: int|
                        0 <= k < r@.len() ==> is_stencil_of(
                            #[trigger] r@[k],
                            nn,
                            self.obstacle_mask(),
                            sweep_x(nn, k),
                            sweep_y(nn, k),
                        ) && interior(nn, sweep_x(nn, k), sweep_y(nn, k)) && r@[k].center < nn
                            * nn && r@[k].left < nn * nn && r@[k].right < nn * nn && r@[k].up
                            < nn * nn && r@[k].down < nn * nn,
                decreases n - 1 - x,
            {
                let s = self.stencil(x, y);
                proof {
                    let k = r@.len() as int;
                    lemma_fundamental_div_mod_converse(k, w as int, y - 1, x - 1);
                    lemma_interior_cell(nn, x as int, y as int);
                }
                r.push(s);
                x = x + 1;
            }
            proof {
                assert((y - 1) * w + w == y * w) by (nonlinear_arith);
            }
            y = y + 1;
        }
        assert forall|k: int| 0 <= k < r@.len() implies interior(nn, sweep_x(nn, k), sweep_y(nn, k)) by {
            assert(is_stencil_of(r@[k], nn, self.obstacle_mask(), sweep_x(nn, k), sweep_y(nn, k)));
        }
        r
    }
}

} // verus!
