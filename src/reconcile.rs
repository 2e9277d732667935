use vstd::prelude::*;
use crate::grid::{cell, interior, lemma_interior_cell, Grid};

verus! {

/// What obstacle reconciliation does at one interior cell.
#[derive(Debug, Clone, Copy, PartialEq, Eq, Structural)]
pub enum Reconcile {
    /// The cell is solid: zero its density and velocity, scratch included.
    Clear,
    /// Fluid falls onto a solid cell below: damp the vertical velocity and
    /// push the removed momentum sideways into the named open neighbours.
    Deflect { left: Option<usize>, right: Option<usize> },
    /// Nothing to do.
    Keep,
}

/// The neighbour at `other`, unless it is solid.
pub open spec fn open_neighbour(mask: Seq<bool>, other: int) -> Option<usize> {
    if mask[other] {
        None
    } else {
        Some(other as usize)
    }
}

/// Reconciliation at cell `c`, where `falling` tells whether its vertical
/// velocity is positive.
pub open spec fn reconcile_spec(n: int, mask: Seq<bool>, c: int, falling: bool) -> Reconcile {
    if mask[c] {
        Reconcile::Clear
    } else if mask[c + n] && falling {
        Reconcile::Deflect { left: open_neighbour(mask, c - 1), right: open_neighbour(mask, c + 1) }
    } else {
        Reconcile::Keep
    }
}

impl Grid {
    /// Reconciliation at interior cell `(x, y)`; `falling` tells whether
    /// its vertical velocity is positive.
    pub fn reconcile(&self, x: usize, y: usize, falling: bool) -> (r: Reconcile)
        requires
            self.wf(),
            interior(self.n(), x as int, y as int),
        ensures
            r == reconcile_spec(self.n(), self.obstacle_mask(), cell(self.n(), x as int, y as int), falling),
            r is Clear <==> self.obstacle_mask()[cell(self.n(), x as int, y as int)],
            r matches Reconcile::Deflect { left, right } ==> {
                &&& left matches Some(i) ==> i < self.n() * self.n() && !self.obstacle_mask()[i as int]
                &&& right matches Some(i) ==> i < self.n() * self.n() && !self.obstacle_mask()[i as int]
            },
    {
        proof {
            lemma_interior_cell(self.n(), x as int, y as int);
        }
        let n: usize = self.get_size();
        let c: usize = x + y * n;
        if self.is_obstacle(c) {
            Reconcile::Clear
        } else if self.is_obstacle(c + n) && falling {
            let left: Option<usize> = if self.is_obstacle(c - 1) { None } else { Some(c - 1) };
            let right: Option<usize> = if self.is_obstacle(c + 1) { None } else { Some(c + 1) };
            Reconcile::Deflect { left, right }
        } else {
            Reconcile::Keep
        }
    }
}

/// Reconciliation clears every solid cell, whatever its velocity, and a
/// deflection never writes into a solid cell; as the ring holds no solid
/// cell, a sweep over the interior leaves every solid cell at zero.
pub proof fn lemma_reconcile_clears_solids(g: Grid, falling: bool)
    requires
        g.wf(),
    ensures
        forall|x: int, y: int|
            0 <= x < g.n() && 0 <= y < g.n() && #[trigger] g.obstacle_mask()[cell(g.n(), x, y)]
                ==> interior(g.n(), x, y)
                && reconcile_spec(g.n(), g.obstacle_mask(), cell(g.n(), x, y), falling) is Clear,
        forall|x: int, y: int|
            #![trigger reconcile_spec(g.n(), g.obstacle_mask(), cell(g.n(), x, y), falling)]
            interior(g.n(), x, y) ==> match reconcile_spec(g.n(), g.obstacle_mask(), cell(g.n(), x, y), falling) {
                Reconcile::Deflect { left, right } => {
                    &&& left matches Some(i) ==> !g.obstacle_mask()[i as int]
                    &&& right matches Some(i) ==> !g.obstacle_mask()[i as int]
                },
                _ => true,
            },
{
    assert forall|x: int, y: int|
        #![trigger reconcile_spec(g.n(), g.obstacle_mask(), cell(g.n(), x, y), falling)]
        interior(g.n(), x, y) implies match reconcile_spec(g.n(), g.obstacle_mask(), cell(g.n(), x, y), falling) {
            Reconcile::Deflect { left, right } => {
                &&& left matches Some(i) ==> !g.obstacle_mask()[i as int]
                &&& right matches Some(i) ==> !g.obstacle_mask()[i as int]
            },
            _ => true,
        } by {
        lemma_interior_cell(g.n(), x, y);
    }
}

} // verus!
