//! What can go wrong while a scene is traced.

use crate::scalar::Scalar;
use vstd::prelude::*;

verus! {

/// Every failure is final where it occurs: nothing is retried, and the first
/// failure of a render is its result.
#[derive(Clone, Copy, Debug)]
pub enum RayTracingError {
    /// A direction was asked of a vector of magnitude zero.
    VectorHasNormeZero,
    /// The horizon was asked for at a point that is not on the sphere.
    PointNotOnSphere,
    /// A sphere was looked up at an index (first field) in a scene that holds
    /// only as many objects as the second field says.
    NoSphereAtIndex(usize, usize),
    /// A ray cast at a point of the scene ended nowhere.
    RayBetweenPointsDoesNotHitPoint,
    /// A reflection or a direct illumination was asked for towards a source
    /// that the surface cannot see.
    SourceNotVisibleFromPoint,
    /// A diffusion coefficient lies outside `[0, 1]`. The fields are the red,
    /// green and blue coefficients as given.
    DiffusionCoefficientOOB(Scalar, Scalar, Scalar),
    /// A coefficient (first field) lies outside the bounds given by the second
    /// and third fields.
    CoefficientOOB(Scalar, Scalar, Scalar),
    /// The stream of random directions has run dry.
    IteratorDepleted,
}

/// Failures of the vector algebra alone.
#[derive(Debug)]
pub enum GeometryErrors {
    /// A unit vector was asked of a vector of magnitude zero. The field names
    /// the operation that asked.
    UnitVectorFromZeroVector(String),
}

} // verus!
