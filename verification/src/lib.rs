//! A Monte Carlo path tracer for scenes of emissive and diffuse spheres.
//!
//! Real numbers are carried as IEEE-754 binary64 encodings ([`scalar::Scalar`]).
//! Ordering and range tests on encodings are integer arithmetic and are decided
//! here; the arithmetic that produces an encoding is left to the caller.

pub mod error;
pub mod geometry;
pub mod optic;
pub mod scalar;
