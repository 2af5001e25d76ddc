//! When a vector has a direction.

use crate::error::RayTracingError;
use crate::scalar::Scalar;
use vstd::prelude::*;

verus! {

/// Decides from the magnitude of a vector whether it can be normalised: it
/// cannot where the magnitude is zero, and only there.
pub fn normalize(norme: Scalar) -> (r: Result<(), RayTracingError>)
    ensures
        norme.is_zero() <==> r is Err,
        r is Err ==> r == Err::<(), RayTracingError>(RayTracingError::VectorHasNormeZero),
{
    if norme.is_zero() {
        Err(RayTracingError::VectorHasNormeZero)
    } else {
        Ok(())
    }
}

} // verus!
