use vstd::prelude::*;
use crate::grid::{cell, interior, lemma_cell_in_grid, Grid};

verus! {

/// How a field behaves at the walls: scalars are copied outward, a velocity
/// component is mirrored (negated) at the walls it is normal to.
#[derive(Debug, Clone, Copy, PartialEq, Eq, Structural)]
pub enum Boundary {
    /// Density, pressure, divergence.
    Scalar,
    /// The x component of velocity: negated at the left and right walls.
    VelocityX,
    /// The y component of velocity: negated at the top and bottom walls.
    VelocityY,
}

/// One side of the outer ring, corners excluded.
#[derive(Debug, Clone, Copy, PartialEq, Eq, Structural)]
pub enum Edge {
    /// Row `y = 0`.
    Top,
    /// Row `y = n - 1`.
    Bottom,
    /// Column `x = 0`.
    Left,
    /// Column `x = n - 1`.
    Right,
}

/// One corner of the grid.
#[derive(Debug, Clone, Copy, PartialEq, Eq, Structural)]
pub enum Corner {
    TopLeft,
    TopRight,
    BottomLeft,
    BottomRight,
}

/// Write `field[from]` (negated when `negate`) into `field[target]`.
#[derive(Debug, Clone, Copy, PartialEq, Eq, Structural)]
pub struct EdgeCopy {
    pub target: usize,
    pub from: usize,
    pub negate: bool,
}

/// Write the damped average of `field[first]` and `field[second]` into
/// `field[target]`.
#[derive(Debug, Clone, Copy, PartialEq, Eq, Structural)]
pub struct CornerAverage {
    pub target: usize,
    pub first: usize,
    pub second: usize,
}

/// Coordinates of the `k`-th cell of an edge.
pub open spec fn edge_target_xy(n: int, edge: Edge, k: int) -> (int, int) {
    match edge {
        Edge::Top => (k, 0),
        Edge::Bottom => (k, n - 1),
        Edge::Left => (0, k),
        Edge::Right => (n - 1, k),
    }
}

/// Coordinates of the interior cell next to the `k`-th cell of an edge.
pub open spec fn edge_from_xy(n: int, edge: Edge, k: int) -> (int, int) {
    match edge {
        Edge::Top => (k, 1),
        Edge::Bottom => (k, n - 2),
        Edge::Left => (1, k),
        Edge::Right => (n - 2, k),
    }
}

/// Whether `kind` is mirrored across `edge`.
pub open spec fn mirrored(kind: Boundary, edge: Edge) -> bool {
    match edge {
        Edge::Top | Edge::Bottom => kind == Boundary::VelocityY,
        Edge::Left | Edge::Right => kind == Boundary::VelocityX,
    }
}

/// Coordinates of a corner and of its two edge neighbours, in the order in
/// which they are summed.
pub open spec fn corner_xy(n: int, corner: Corner) -> ((int, int), (int, int), (int, int)) {
    match corner {
        Corner::TopLeft => ((0, 0), (1, 0), (0, 1)),
        Corner::TopRight => ((n - 1, 0), (n - 2, 0), (n - 1, 1)),
        Corner::BottomLeft => ((0, n - 1), (1, n - 1), (0, n - 2)),
        Corner::BottomRight => ((n - 1, n - 1), (n - 1, n - 2), (n - 2, n - 1)),
    }
}

pub open spec fn xy_cell(n: int, p: (int, int)) -> int {
    cell(n, p.0, p.1)
}

impl Grid {
    /// The copy that sets the `k`-th cell of `edge` for a field of `kind`.
    pub fn edge_copy(&self, kind: Boundary, edge: Edge, k: usize) -> (r: EdgeCopy)
        requires
            self.wf(),
            1 <= k < self.n() - 1,
        ensures
            r.target == xy_cell(self.n(), edge_target_xy(self.n(), edge, k as int)),
            r.from == xy_cell(self.n(), edge_from_xy(self.n(), edge, k as int)),
            r.negate == mirrored(kind, edge),
            r.target < self.n() * self.n(),
            r.from < self.n() * self.n(),
    {
        let n: usize = self.get_size();
        let (tx, ty, fx, fy): (usize, usize, usize, usize) = match edge {
            Edge::Top => (k, 0, k, 1),
            Edge::Bottom => (k, n - 1, k, n - 2),
            Edge::Left => (0, k, 1, k),
            Edge::Right => (n - 1, k, n - 2, k),
        };
        proof {
            lemma_cell_in_grid(n as int, tx as int, ty as int);
            lemma_cell_in_grid(n as int, fx as int, fy as int);
        }
        let negate: bool = match edge {
            Edge::Top | Edge::Bottom => match kind {
                Boundary::VelocityY => true,
                _ => false,
            },
            Edge::Left | Edge::Right => match kind {
                Boundary::VelocityX => true,
                _ => false,
            },
        };
        EdgeCopy { target: tx + ty * n, from: fx + fy * n, negate }
    }

    /// The average that sets `corner`.
    pub fn corner_average(&self, corner: Corner) -> (r: CornerAverage)
        requires
            self.wf(),
        ensures
            r.target == xy_cell(self.n(), corner_xy(self.n(), corner).0),
            r.first == xy_cell(self.n(), corner_xy(self.n(), corner).1),
            r.second == xy_cell(self.n(), corner_xy(self.n(), corner).2),
            r.target < self.n() * self.n(),
            r.first < self.n() * self.n(),
            r.second < self.n() * self.n(),
    {
        let n: usize = self.get_size();
        let (tx, ty, ax, ay, bx, by): (usize, usize, usize, usize, usize, usize) = match corner {
            Corner::TopLeft => (0, 0, 1, 0, 0, 1),
            Corner::TopRight => (n - 1, 0, n - 2, 0, n - 1, 1),
            Corner::BottomLeft => (0, n - 1, 1, n - 1, 0, n - 2),
            Corner::BottomRight => (n - 1, n - 1, n - 1, n - 2, n - 2, n - 1),
        };
        proof {
            lemma_cell_in_grid(n as int, tx as int, ty as int);
            lemma_cell_in_grid(n as int, ax as int, ay as int);
            lemma_cell_in_grid(n as int, bx as int, by as int);
        }
        CornerAverage { target: tx + ty * n, first: ax + ay * n, second: bx + by * n }
    }
}

/// Every edge copy reads an interior cell and writes a ring cell, so the
/// copies of one pass never read what another copy of the pass writes.
pub proof fn lemma_edge_reads_interior(n: int, edge: Edge, k: int)
    requires
        n >= 3,
        1 <= k < n - 1,
    ensures
        interior(n, edge_from_xy(n, edge, k).0, edge_from_xy(n, edge, k).1),
        !interior(n, edge_target_xy(n, edge, k).0, edge_target_xy(n, edge, k).1),
{
}

} // verus!
