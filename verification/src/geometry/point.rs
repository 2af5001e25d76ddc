//! When two points are the same point.

use crate::scalar::Scalar;
use vstd::prelude::*;

verus! {

/// Two points coincide where their distance lies in `[0, 1e-12]`.
pub open spec fn spec_coincide(distance: Scalar) -> bool {
    distance.within(Scalar::zero(), Scalar::epsilon())
}

/// Decides from the distance of two points whether they are one point: they
/// are where the distance is a number in `[0, 1e-12]`.
#[verifier::when_used_as_spec(spec_coincide)]
pub fn coincide(distance: Scalar) -> (same: bool)
    ensures
        same == spec_coincide(distance),
{
    distance.within(Scalar::zero(), Scalar::epsilon())
}

} // verus!
