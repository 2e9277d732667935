use stable_fluid::advection::Bilinear;
use stable_fluid::boundary::{Boundary, Corner, CornerAverage, Edge, EdgeCopy};
use stable_fluid::grid::Grid;
use stable_fluid::pipeline::{step_stages, Quantity, Stage, RELAX_SWEEPS};
use stable_fluid::reconcile::Reconcile;
use stable_fluid::stencil::Stencil;

fn grid(n: usize) -> Grid {
    Grid::new(n).unwrap()
}

#[test]
fn open_stencil_reads_neighbours() {
    let g = grid(10);
    let s = g.stencil(3, 4);
    assert_eq!(s, Stencil { x: 3, y: 4, center: 43, solid: false, left: 42, right: 44, up: 33, down: 53 });
}

#[test]
fn solid_neighbours_read_own_cell() {
    let mut g = grid(10);
    g.set_obstacle(2, 4, true);
    g.set_obstacle(3, 5, true);
    let s = g.stencil(3, 4);
    assert_eq!(s, Stencil { x: 3, y: 4, center: 43, solid: false, left: 43, right: 44, up: 33, down: 43 });
    assert!(g.stencil(2, 4).solid);
}

#[test]
fn stencil_at_ring_corner_of_interior() {
    let g = grid(3);
    assert_eq!(g.stencil(1, 1), Stencil { x: 1, y: 1, center: 4, solid: false, left: 3, right: 5, up: 1, down: 7 });
}

#[test]
fn edge_copies_for_scalars() {
    let g = grid(10);
    assert_eq!(g.edge_copy(Boundary::Scalar, Edge::Top, 3), EdgeCopy { target: 3, from: 13, negate: false });
    assert_eq!(g.edge_copy(Boundary::Scalar, Edge::Bottom, 3), EdgeCopy { target: 93, from: 83, negate: false });
    assert_eq!(g.edge_copy(Boundary::Scalar, Edge::Left, 3), EdgeCopy { target: 30, from: 31, negate: false });
    assert_eq!(g.edge_copy(Boundary::Scalar, Edge::Right, 3), EdgeCopy { target: 39, from: 38, negate: false });
}

#[test]
fn edge_copies_mirror_normal_velocity() {
    let g = grid(10);
    assert!(g.edge_copy(Boundary::VelocityY, Edge::Top, 1).negate);
    assert!(g.edge_copy(Boundary::VelocityY, Edge::Bottom, 8).negate);
    assert!(!g.edge_copy(Boundary::VelocityY, Edge::Left, 1).negate);
    assert!(g.edge_copy(Boundary::VelocityX, Edge::Left, 1).negate);
    assert!(g.edge_copy(Boundary::VelocityX, Edge::Right, 8).negate);
    assert!(!g.edge_copy(Boundary::VelocityX, Edge::Top, 8).negate);
}

#[test]
fn corner_averages_use_edge_neighbours() {
    let g = grid(10);
    assert_eq!(g.corner_average(Corner::TopLeft), CornerAverage { target: 0, first: 1, second: 10 });
    assert_eq!(g.corner_average(Corner::BottomLeft), CornerAverage { target: 90, first: 91, second: 80 });
    assert_eq!(g.corner_average(Corner::TopRight), CornerAverage { target: 9, first: 8, second: 19 });
    assert_eq!(g.corner_average(Corner::BottomRight), CornerAverage { target: 99, first: 89, second: 98 });
}

#[test]
fn sample_cells_surround_the_traced_point() {
    let g = grid(10);
    assert_eq!(g.sample_cells(5, 5), Bilinear { lo_lo: 55, lo_hi: 65, hi_lo: 56, hi_hi: 66 });
    assert_eq!(g.sample_cells(0, 0), Bilinear { lo_lo: 0, lo_hi: 10, hi_lo: 1, hi_hi: 11 });
    assert_eq!(g.sample_cells(8, 8), Bilinear { lo_lo: 88, lo_hi: 98, hi_lo: 89, hi_hi: 99 });
}

#[test]
fn reconcile_decisions() {
    let mut g = grid(10);
    g.set_obstacle(5, 6, true);
    assert_eq!(g.reconcile(5, 6, true), Reconcile::Clear);
    assert_eq!(g.reconcile(5, 5, true), Reconcile::Deflect { left: Some(54), right: Some(56) });
    assert_eq!(g.reconcile(5, 5, false), Reconcile::Keep);
    assert_eq!(g.reconcile(4, 5, true), Reconcile::Keep);
    g.set_obstacle(4, 5, true);
    assert_eq!(g.reconcile(5, 5, true), Reconcile::Deflect { left: None, right: Some(56) });
}

#[test]
fn bottom_row_never_deflects() {
    let g = grid(10);
    assert_eq!(g.reconcile(5, 8, true), Reconcile::Keep);
}

#[test]
fn stages_run_in_fixed_order() {
    let s = step_stages();
    assert_eq!(
        s,
        vec![
            Stage::InjectSources,
            Stage::Buoyancy,
            Stage::DiffuseVelocity,
            Stage::ProjectVelocity,
            Stage::AdvectVelocity,
            Stage::ReprojectVelocity,
            Stage::DiffuseDensity,
            Stage::AdvectDensity,
            Stage::ReconcileObstacles,
        ]
    );
    assert_eq!(RELAX_SWEEPS, 20);
}

#[test]
fn quantities_map_to_boundary_kinds() {
    assert_eq!(Quantity::Density.boundary(), Boundary::Scalar);
    assert_eq!(Quantity::VelocityX.boundary(), Boundary::VelocityX);
    assert_eq!(Quantity::VelocityY.boundary(), Boundary::VelocityY);
}

#[test]
fn sweep_visits_interior_row_major() {
    let mut g = grid(5);
    g.set_obstacle(2, 2, true);
    let sweep = g.sweep();
    let centers: Vec<usize> = sweep.iter().map(|s| s.center).collect();
    assert_eq!(centers, vec![6, 7, 8, 11, 12, 13, 16, 17, 18]);
    let coords: Vec<(usize, usize)> = sweep.iter().map(|s| (s.x, s.y)).collect();
    assert_eq!(coords[0], (1, 1));
    assert_eq!(coords[2], (3, 1));
    assert_eq!(coords[3], (1, 2));
    assert_eq!(coords[8], (3, 3));
    for s in &sweep {
        assert_eq!(*s, g.stencil(s.x, s.y));
    }
    assert!(sweep[4].solid);
    assert_eq!(sweep[1].down, 7);
    assert_eq!(sweep[3].right, 11);
}

#[test]
fn sweep_of_smallest_grid_is_one_cell() {
    let g = grid(3);
    assert_eq!(g.sweep(), vec![g.stencil(1, 1)]);
}

#[test]
fn still_trace_samples_own_cell() {
    let mut g = grid(7);
    g.set_obstacle(3, 3, true);
    for st in g.sweep() {
        let b = g.sample_cells(st.x, st.y);
        assert_eq!(b.lo_lo, st.center);
        assert_eq!(b.hi_lo, st.center + 1);
        assert_eq!(b.lo_hi, st.center + 7);
    }
}

#[test]
fn reconcile_sweep_clears_every_solid_cell() {
    let mut g = grid(8);
    for &(x, y) in &[(2, 2), (3, 2), (4, 5), (6, 6), (1, 6)] {
        g.set_obstacle(x, y, true);
    }
    let mut cleared = Vec::new();
    for st in g.sweep() {
        for &falling in &[false, true] {
            match g.reconcile(st.x, st.y, falling) {
                Reconcile::Clear => {
                    if !falling {
                        cleared.push(st.center);
                    }
                }
                Reconcile::Deflect { left, right } => {
                    assert!(falling);
                    for i in left.into_iter().chain(right) {
                        assert!(!g.is_obstacle(i));
                    }
                }
                Reconcile::Keep => {}
            }
        }
    }
    let solid: Vec<usize> = (0..64).filter(|&i| g.is_obstacle(i)).collect();
    assert_eq!(cleared, solid);
    assert_eq!(g.reconcile(3, 1, true), Reconcile::Deflect { left: Some(10), right: Some(12) });
    assert_eq!(g.reconcile(4, 1, true), Reconcile::Keep);
    assert_eq!(g.reconcile(2, 1, true), Reconcile::Deflect { left: Some(9), right: Some(11) });
}
