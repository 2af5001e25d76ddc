//! The decisions of the geometry: which root of an intersection counts, which
//! of several hits is the nearest, what a point on a sphere can see.
//!
//! Each function here takes the quantities that its decision rests on, as
//! computed by the caller, and returns the decision.

pub mod point;
pub mod ray;
pub mod shape;
pub mod vector;
