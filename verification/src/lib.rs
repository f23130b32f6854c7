use vstd::prelude::*;

pub mod batch;
pub mod corners;
pub mod dlt;
pub mod geometry;
pub mod mask;
pub mod pipeline;
pub mod policy;
pub mod render;

verus! {

/// Error raised by a single rectification job; it aborts that job only.
#[derive(Clone, Copy, Debug, PartialEq, Eq, Structural)]
pub enum CoreError {
    /// The binary mask holds no dark pixel at all, so no corner can be located.
    UnusableImage,
    /// The control points are collinear or the projective solve is unstable.
    DegenerateGeometry,
    /// The output dimensions computed by the size policy are not positive.
    InvalidGeometry,
}

} // verus!
