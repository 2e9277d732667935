use vstd::prelude::*;
use crate::boundary::Boundary;

verus! {

/// Sweeps of every relaxation solve.
pub const RELAX_SWEEPS: usize = 20;

/// A transported quantity.
#[derive(Debug, Clone, Copy, PartialEq, Eq, Structural)]
pub enum Quantity {
    Density,
    VelocityX,
    VelocityY,
}

impl Quantity {
    /// The wall behaviour of the quantity.
    pub fn boundary(self) -> (r: Boundary)
        ensures
            r == match self {
                Quantity::Density => Boundary::Scalar,
                Quantity::VelocityX => Boundary::VelocityX,
                Quantity::VelocityY => Boundary::VelocityY,
            },
    {
        match self {
            Quantity::Density => Boundary::Scalar,
            Quantity::VelocityX => Boundary::VelocityX,
            Quantity::VelocityY => Boundary::VelocityY,
        }
    }
}

/// One stage of a simulation step.
#[derive(Debug, Clone, Copy, PartialEq, Eq, Structural)]
pub enum Stage {
    InjectSources,
    Buoyancy,
    DiffuseVelocity,
    ProjectVelocity,
    AdvectVelocity,
    ReprojectVelocity,
    DiffuseDensity,
    AdvectDensity,
    ReconcileObstacles,
}

/// The fixed order of the stages of one step.
pub open spec fn step_order() -> Seq<Stage> {
    seq![
        Stage::InjectSources,
        Stage::Buoyancy,
        Stage::DiffuseVelocity,
        Stage::ProjectVelocity,
        Stage::AdvectVelocity,
        Stage::ReprojectVelocity,
        Stage::DiffuseDensity,
        Stage::AdvectDensity,
        Stage::ReconcileObstacles,
    ]
}

/// The stages of one step, in the order they run.
pub fn step_stages() -> (r: Vec<Stage>)
    ensures
        r@ == step_order(),
{
    let r: Vec<Stage> = vec![
        Stage::InjectSources,
        Stage::Buoyancy,
        Stage::DiffuseVelocity,
        Stage::ProjectVelocity,
        Stage::AdvectVelocity,
        Stage::ReprojectVelocity,
        Stage::DiffuseDensity,
        Stage::AdvectDensity,
        Stage::ReconcileObstacles,
    ];
    assert(r@ =~= step_order());
    r
}

} // verus!
