//! A rational B-spline (NURBS) curve evaluator and discretizer.
//!
//! A curve is defined by a degree, a sequence of homogeneous control points
//! `(x, y, z, w)` and a non-decreasing knot vector. Evaluation runs de Boor's
//! algorithm in homogeneous space and divides the result by its weight;
//! sampling walks the parameter domain at uniform steps and collects the
//! evaluated points into a polyline.
//!
//! All coordinates are exact rational numbers (`rat::Rat`), so evaluation is
//! exact; an operation reports failure exactly when an intermediate value
//! leaves the fixed-width integer range, and the `..._fits` spec functions
//! say when a result is owed.

pub mod curve;
pub mod eval;
pub mod laws;
pub mod rat;
pub mod sample;

pub use curve::{ConstructionError, Curve, HPoint};
pub use eval::{de_boor, Point3};
pub use rat::Rat;
pub use sample::{control_polygon, sample_polyline, Point2, SampleError};
