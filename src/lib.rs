//! Discrete core of a two-dimensional "stable fluids" solver: grid geometry,
//! obstacle and source masks, and every index and decision that the
//! relaxation, projection, advection, boundary and obstacle stages rely on.

pub mod grid;
pub mod stencil;
pub mod boundary;
pub mod advection;
pub mod reconcile;
pub mod pipeline;
