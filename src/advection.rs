use vstd::prelude::*;
use crate::grid::{cell, interior, Grid};

verus! {

/// The four grid nodes around a traced position whose clamped coordinates
/// have integer parts `i0` and `j0`.
#[derive(Debug, Clone, Copy, PartialEq, Eq, Structural)]
pub struct Bilinear {
    /// Node `(i0, j0)`.
    pub lo_lo: usize,
    /// Node `(i0, j0 + 1)`.
    pub lo_hi: usize,
    /// Node `(i0 + 1, j0)`.
    pub hi_lo: usize,
    /// Node `(i0 + 1, j0 + 1)`.
    pub hi_hi: usize,
}

/// Clamping a traced coordinate into `[0.5, n - 1.5]` leaves its integer
/// part in `[0, n - 2]`, so both of its sampling nodes lie on the grid.
pub open spec fn valid_floor(n: int, i: int) -> bool {
    0 <= i <= n - 2
}

impl Grid {
    /// The sampling nodes of a traced position with integer parts
    /// `(i0, j0)`.
    pub fn sample_cells(&self, i0: usize, j0: usize) -> (r: Bilinear)
        requires
            self.wf(),
            valid_floor(self.n(), i0 as int),
            valid_floor(self.n(), j0 as int),
        ensures
            r.lo_lo == cell(self.n(), i0 as int, j0 as int),
            r.lo_hi == cell(self.n(), i0 as int, j0 + 1),
            r.hi_lo == cell(self.n(), i0 + 1, j0 as int),
            r.hi_hi == cell(self.n(), i0 + 1, j0 + 1),
            r.hi_hi < self.n() * self.n(),
            r.lo_lo < r.hi_lo < r.lo_hi < r.hi_hi,
    {
        let n: usize = self.get_size();
        proof {
            let nn = n as int;
            let j = j0 as int;
            assert((j + 1) * nn <= (nn - 1) * nn) by (nonlinear_arith)
                requires
                    0 <= j <= nn - 2,
                    nn >= 3,
            ;
            assert((nn - 1) * nn + nn == nn * nn) by (nonlinear_arith);
            assert((j + 1) * nn == j * nn + nn) by (nonlinear_arith);
            assert(0 <= j * nn) by (nonlinear_arith)
                requires
                    0 <= j,
                    nn >= 3,
            ;
        }
        let row: usize = j0 * n;
        let next_row: usize = row + n;
        Bilinear {
            lo_lo: i0 + row,
            lo_hi: i0 + next_row,
            hi_lo: i0 + 1 + row,
            hi_hi: i0 + 1 + next_row,
        }
    }
}

/// Where the velocity is zero the traced position is the interior cell
/// itself, with no fraction; its coordinates are then valid integer parts,
/// so `sample_cells` takes them and names the cell as its first node.
pub proof fn lemma_still_trace_samples_own_cell(n: int, x: int, y: int)
    requires
        n >= 3,
        interior(n, x, y),
    ensures
        valid_floor(n, x),
        valid_floor(n, y),
{
}

} // verus!
