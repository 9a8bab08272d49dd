//! Geometry of the Smith chart in exact arithmetic.
//!
//! The chart maps normalized impedances `z = r + jx` to reflection
//! coefficients `gamma = (z - 1) / (z + 1)` in the unit disk. This crate holds
//! the coordinate transforms between pixels, the normalized plane and the
//! gamma plane, the loci of constant resistance and constant reactance, and
//! the list of shapes that makes up one picture of the chart. Numbers are
//! exact rationals; contracts are stated over the reals.
//!
//! What is proved of the geometry, beside the contract of each function:
//! the transforms undo each other (`transform`), the arcs of `x` and `-x` are
//! mirror images (`symmetry`), every point of an arc lies in the unit disk up
//! to one grid step (`containment`), every arc runs from the point `(1, 0)` to
//! the unit circle (`endpoints`), and the circle drawn for a pointer passes
//! through it (`picture`).

pub mod chart;
pub mod containment;
pub mod curve;
pub mod endpoints;
pub mod geometry;
pub mod picture;
pub mod reals;
pub mod scalar;
pub mod symmetry;
pub mod transform;

pub use chart::{Plane, SmithChart};
pub use geometry::{Complex, Rect, Vec2};
pub use picture::{Pen, Picture, Readout, Shape, Target, Trace};
pub use scalar::Scalar;
