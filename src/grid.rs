use vstd::prelude::*;

verus! {

/// Flat row-major index of cell `(x, y)` on an `n` by `n` grid.
pub open spec fn cell(n: int, x: int, y: int) -> int {
    x + y * n
}

/// Whether `(x, y)` lies strictly inside the outer boundary ring.
pub open spec fn interior(n: int, x: int, y: int) -> bool {
    1 <= x < n - 1 && 1 <= y < n - 1
}

/// `mask` after writing `v` at `(x, y)` on an `n` by `n` grid, where only
/// interior cells take writes.
pub open spec fn toggled(n: int, mask: Seq<bool>, x: int, y: int, v: bool) -> Seq<bool> {
    if interior(n, x, y) {
        mask.update(cell(n, x, y), v)
    } else {
        mask
    }
}

/// The (obstacle, source) masks after `set_obstacle(x, y, active)`.
pub open spec fn with_obstacle(n: int, m: (Seq<bool>, Seq<bool>), x: int, y: int, active: bool) -> (
    Seq<bool>,
    Seq<bool>,
) {
    (toggled(n, m.0, x, y, active), m.1)
}

/// The (obstacle, source) masks after `set_source(x, y, active)`.
pub open spec fn with_source(n: int, m: (Seq<bool>, Seq<bool>), x: int, y: int, active: bool) -> (
    Seq<bool>,
    Seq<bool>,
) {
    (if active {
        toggled(n, m.0, x, y, false)
    } else {
        m.0
    }, toggled(n, m.1, x, y, active))
}

/// Why a grid cannot be built.
#[derive(Debug, Clone, Copy, PartialEq, Eq, Structural)]
pub enum GridError {
    /// Fewer than three cells per side leave no interior.
    TooSmall,
}

/// The square grid with its obstacle and source masks.
///
/// Masks are stored as bytes (`0` or `1`) so that a renderer can read them
/// directly.
pub struct Grid {
    size: usize,
    obstacles: Vec<u8>,
    sources: Vec<u8>,
}

impl Grid {
    /// Cells per side.
    pub closed spec fn n(&self) -> int {
        self.size as int
    }

    /// The obstacle mask, one flag per cell.
    pub closed spec fn obstacle_mask(&self) -> Seq<bool> {
        self.obstacles@.map_values(|v: u8| v != 0)
    }

    /// The source mask, one flag per cell.
    pub closed spec fn source_mask(&self) -> Seq<bool> {
        self.sources@.map_values(|v: u8| v != 0)
    }

    /// Both masks, obstacles first.
    pub open spec fn masks(&self) -> (Seq<bool>, Seq<bool>) {
        (self.obstacle_mask(), self.source_mask())
    }

    /// The stored bytes of both masks are all `0` or `1`, and both masks
    /// cover the grid.
    pub closed spec fn bytes_ok(&self) -> bool {
        &&& self.obstacles@.len() == self.size * self.size
        &&& self.sources@.len() == self.size * self.size
        &&& forall|i: int| 0 <= i < self.obstacles@.len() ==> #[trigger] self.obstacles@[i] <= 1
        &&& forall|i: int| 0 <= i < self.sources@.len() ==> #[trigger] self.sources@[i] <= 1
    }

    /// Well-formedness: at least one interior cell, masks covering the
    /// grid, and no obstacle or source on the boundary ring.
    pub open spec fn wf(&self) -> bool {
        &&& self.bytes_ok()
        &&& self.n() >= 3
        &&& self.n() * self.n() <= usize::MAX
        &&& self.obstacle_mask().len() == self.n() * self.n()
        &&& self.source_mask().len() == self.n() * self.n()
        &&& forall|x: int, y: int|
            0 <= x < self.n() && 0 <= y < self.n() && !interior(self.n(), x, y) ==> {
                &&& !#[trigger] self.obstacle_mask()[cell(self.n(), x, y)]
                &&& !self.source_mask()[cell(self.n(), x, y)]
            }
    }

    /// A zero-filled grid of `size` by `size` cells; fails when `size < 3`.
    pub fn new(size: usize) -> (r: Result<Grid, GridError>)
        requires
            size * size <= usize::MAX,
        ensures
            r is Ok <==> size >= 3,
            r matches Ok(g) ==> {
                &&& g.wf()
                &&& g.n() == size
                &&& forall|i: int| 0 <= i < size * size ==> !#[trigger] g.obstacle_mask()[i]
                &&& forall|i: int| 0 <= i < size * size ==> !#[trigger] g.source_mask()[i]
            },
            r matches Err(e) ==> e == GridError::TooSmall,
    {
        if size < 3 {
            return Err(GridError::TooSmall);
        }
        let cells: usize = size * size;
        let obstacles: Vec<u8> = vec![0u8; cells];
        let sources: Vec<u8> = vec![0u8; cells];
        let g = Grid { size, obstacles, sources };
        assert(g.obstacle_mask().len() == cells);
        assert forall|x: int, y: int| 0 <= x < size && 0 <= y < size implies
            !#[trigger] g.obstacle_mask()[cell(size as int, x, y)]
            && !g.source_mask()[cell(size as int, x, y)] by {
            lemma_cell_in_grid(size as int, x, y);
        }
        Ok(g)
    }

    /// Cells per side.
    pub fn get_size(&self) -> (r: usize)
        ensures
            r == self.n(),
    {
        self.size
    }

    /// Whether cell `idx` is solid.
    pub fn is_obstacle(&self, idx: usize) -> (r: bool)
        requires
            self.wf(),
            idx < self.n() * self.n(),
        ensures
            r == self.obstacle_mask()[idx as int],
    {
        self.obstacles[idx] != 0
    }

    /// Whether cell `idx` is marked as a source.
    pub fn is_source(&self, idx: usize) -> (r: bool)
        requires
            self.wf(),
            idx < self.n() * self.n(),
        ensures
            r == self.source_mask()[idx as int],
    {
        self.sources[idx] != 0
    }

    /// The obstacle mask as bytes, `1` for a solid cell.
    pub fn obstacles(&self) -> (r: &Vec<u8>)
        requires
            self.wf(),
        ensures
            r@.len() == self.n() * self.n(),
            forall|i: int| 0 <= i < r@.len() ==> (#[trigger] r@[i] == 1) == self.obstacle_mask()[i],
            forall|i: int| 0 <= i < r@.len() ==> #[trigger] r@[i] <= 1,
    {
        &self.obstacles
    }

    /// The source mask as bytes, `1` for a source cell.
    pub fn sources(&self) -> (r: &Vec<u8>)
        requires
            self.wf(),
        ensures
            r@.len() == self.n() * self.n(),
            forall|i: int| 0 <= i < r@.len() ==> (#[trigger] r@[i] == 1) == self.source_mask()[i],
            forall|i: int| 0 <= i < r@.len() ==> #[trigger] r@[i] <= 1,
    {
        &self.sources
    }

    /// Whether `(x, y)` lies strictly inside the boundary ring.
    pub fn is_interior(&self, x: usize, y: usize) -> (r: bool)
        requires
            self.wf(),
        ensures
            r == interior(self.n(), x as int, y as int),
    {
        1 <= x && x < self.size - 1 && 1 <= y && y < self.size - 1
    }

    /// Marks or clears the obstacle at `(x, y)`. Cells of the boundary ring
    /// are left alone. The source mask never changes.
    pub fn set_obstacle(&mut self, x: usize, y: usize, active: bool)
        requires
            old(self).wf(),
        ensures
            final(self).wf(),
            final(self).n() == old(self).n(),
            final(self).masks() == with_obstacle(old(self).n(), old(self).masks(), x as int, y as int, active),
    {
        if !self.is_interior(x, y) {
            return;
        }
        proof {
            lemma_interior_cell(self.n(), x as int, y as int);
        }
        let idx: usize = x + y * self.size;
        self.obstacles.set(idx, if active { 1u8 } else { 0u8 });
        assert(self.obstacle_mask() =~= old(self).obstacle_mask().update(idx as int, active));
        proof {
            self.lemma_ring_kept(old(self), x as int, y as int);
        }
    }

    /// Marks or clears the source at `(x, y)`; marking it also clears any
    /// obstacle there. Cells of the boundary ring are left alone.
    pub fn set_source(&mut self, x: usize, y: usize, active: bool)
        requires
            old(self).wf(),
        ensures
            final(self).wf(),
            final(self).n() == old(self).n(),
            final(self).masks() == with_source(old(self).n(), old(self).masks(), x as int, y as int, active),
    {
        if !self.is_interior(x, y) {
            return;
        }
        proof {
            lemma_interior_cell(self.n(), x as int, y as int);
        }
        let idx: usize = x + y * self.size;
        self.sources.set(idx, if active { 1u8 } else { 0u8 });
        assert(self.source_mask() =~= old(self).source_mask().update(idx as int, active));
        if active {
            self.obstacles.set(idx, 0u8);
            assert(self.obstacle_mask() =~= old(self).obstacle_mask().update(idx as int, false));
        }
        proof {
            self.lemma_ring_kept(old(self), x as int, y as int);
        }
    }

    /// The cell that an injection at `(x, y)` reaches: its index when both
    /// coordinates lie on the grid and the cell is not solid. Out-of-range
    /// coordinates reach no cell.
    pub fn injection_index(&self, x: usize, y: usize) -> (r: Option<usize>)
        requires
            self.wf(),
        ensures
            r is Some <==> {
                &&& x < self.n()
                &&& y < self.n()
                &&& !self.obstacle_mask()[cell(self.n(), x as int, y as int)]
            },
            r matches Some(i) ==> i == cell(self.n(), x as int, y as int),
    {
        if x >= self.size || y >= self.size {
            return None;
        }
        proof {
            lemma_cell_in_grid(self.n(), x as int, y as int);
        }
        let idx: usize = x + y * self.size;
        if self.obstacles[idx] != 0 {
            None
        } else {
            Some(idx)
        }
    }

    /// Whether cell `idx` emits this step: a source that is not solid.
    pub fn emits(&self, idx: usize) -> (r: bool)
        requires
            self.wf(),
            idx < self.n() * self.n(),
        ensures
            r == (self.source_mask()[idx as int] && !self.obstacle_mask()[idx as int]),
    {
        self.sources[idx] != 0 && self.obstacles[idx] == 0
    }
}

/// Toggles aimed at the boundary ring, or off the grid, change no mask:
/// `set_obstacle` and `set_source` there leave both masks as they were.
pub proof fn lemma_ring_toggle_is_noop(n: int, m: (Seq<bool>, Seq<bool>), x: int, y: int, active: bool)
    requires
        !interior(n, x, y),
    ensures
        with_obstacle(n, m, x, y, active) == m,
        with_source(n, m, x, y, active) == m,
{
}

/// Sources take priority over obstacles: marking a source at a cell that
/// was just made solid clears the obstacle, while making a cell solid after
/// marking a source there keeps the source.
pub proof fn lemma_source_priority(n: int, m: (Seq<bool>, Seq<bool>), x: int, y: int)
    requires
        n >= 3,
        interior(n, x, y),
        m.0.len() == n * n,
        m.1.len() == n * n,
    ensures
        ({
            let after = with_source(n, with_obstacle(n, m, x, y, true), x, y, true);
            !after.0[cell(n, x, y)] && after.1[cell(n, x, y)]
        }),
        ({
            let after = with_obstacle(n, with_source(n, m, x, y, true), x, y, true);
            after.0[cell(n, x, y)] && after.1[cell(n, x, y)]
        }),
{
    lemma_interior_cell(n, x, y);
}

impl Grid {
    /// Changing the masks at one interior cell leaves the ring clear.
    proof fn lemma_ring_kept(&self, before: &Grid, x0: int, y0: int)
        requires
            before.wf(),
            interior(before.n(), x0, y0),
            self.bytes_ok(),
            self.n() == before.n(),
            self.obstacle_mask().len() == before.obstacle_mask().len(),
            self.source_mask().len() == before.source_mask().len(),
            forall|i: int|
                0 <= i < self.obstacle_mask().len() && i != cell(self.n(), x0, y0) ==> {
                    &&& self.obstacle_mask()[i] == before.obstacle_mask()[i]
                    &&& self.source_mask()[i] == before.source_mask()[i]
                },
        ensures
            self.wf(),
    {
        let n = self.n();
        assert forall|x: int, y: int| 0 <= x < n && 0 <= y < n && !interior(n, x, y) implies {
            &&& !#[trigger] self.obstacle_mask()[cell(n, x, y)]
            &&& !self.source_mask()[cell(n, x, y)]
        } by {
            lemma_cell_in_grid(n, x, y);
            if cell(n, x, y) == cell(n, x0, y0) {
                lemma_cell_injective(n, x, y, x0, y0);
            }
            assert(!before.obstacle_mask()[cell(n, x, y)]);
        }
    }
}

/// A cell's index lies on the grid.
pub proof fn lemma_cell_in_grid(n: int, x: int, y: int)
    requires
        0 <= x < n,
        0 <= y < n,
    ensures
        0 <= cell(n, x, y) < n * n,
{
    assert(0 <= y * n <= (n - 1) * n) by (nonlinear_arith)
        requires
            0 <= y < n,
    ;
    assert((n - 1) * n + n == n * n) by (nonlinear_arith);
}

/// Distinct cells have distinct indices.
pub proof fn lemma_cell_injective(n: int, x: int, y: int, u: int, v: int)
    requires
        0 <= x < n,
        0 <= y < n,
        0 <= u < n,
        0 <= v < n,
        cell(n, x, y) == cell(n, u, v),
    ensures
        x == u,
        y == v,
{
    if y < v {
        assert(y * n + n <= v * n) by (nonlinear_arith)
            requires
                y < v,
                n >= 0,
        ;
    } else if v < y {
        assert(v * n + n <= y * n) by (nonlinear_arith)
            requires
                v < y,
                n >= 0,
        ;
    }
}

/// An interior cell's index lies on the grid, as do its four neighbours.
pub proof fn lemma_interior_cell(n: int, x: int, y: int)
    requires
        interior(n, x, y),
    ensures
        n <= cell(n, x, y) - 1,
        cell(n, x, y) + 1 + n < n * n,
        cell(n, x, y) + n < n * n,
{
    assert(y * n <= (n - 2) * n) by (nonlinear_arith)
        requires
            1 <= y <= n - 2,
            n >= 3,
    ;
    assert(n <= y * n) by (nonlinear_arith)
        requires
            1 <= y,
            n >= 3,
    ;
    assert((n - 2) * n + n == (n - 1) * n) by (nonlinear_arith);
    assert((n - 1) * n + n == n * n) by (nonlinear_arith);
}

} // verus!
