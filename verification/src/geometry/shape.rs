//! What a point on the surface of a sphere can see.

use crate::error::RayTracingError;
use crate::geometry::point::coincide;
use crate::geometry::point::spec_coincide;
use crate::scalar::Scalar;
use vstd::prelude::*;

verus! {

/// The place of a sphere in a scene of `number_of_objects` objects:
/// `sphere_index` itself where the scene reaches that far.
pub fn sphere_at_index(number_of_objects: usize, sphere_index: usize) -> (r: Result<
    usize,
    RayTracingError,
>)
    ensures
        sphere_index < number_of_objects ==> r == Ok::<usize, RayTracingError>(sphere_index),
        sphere_index >= number_of_objects ==> r == Err::<usize, RayTracingError>(
            RayTracingError::NoSphereAtIndex(sphere_index, number_of_objects),
        ),
{
    if sphere_index < number_of_objects {
        Ok(sphere_index)
    } else {
        Err(RayTracingError::NoSphereAtIndex(sphere_index, number_of_objects))
    }
}

/// Whether a source is above the horizon of a point on a sphere.
/// `point_is_on_sphere` says whether the point lies on the sphere at all, and
/// `normal_dot_source` is the dot product of the outward normal at the point
/// with the vector from the point to the source. The source is above the
/// horizon where that product is not negative; off the sphere there is no
/// normal and the question fails.
pub open spec fn spec_source_is_above_horizon(
    point_is_on_sphere: bool,
    normal_dot_source: Scalar,
) -> Result<bool, RayTracingError> {
    if point_is_on_sphere {
        Ok(Scalar::zero().le(normal_dot_source))
    } else {
        Err(RayTracingError::PointNotOnSphere)
    }
}

/// Decides whether a source is above the horizon of a point on a sphere: see
/// [`spec_source_is_above_horizon`].
#[verifier::when_used_as_spec(spec_source_is_above_horizon)]
pub fn source_is_above_horizon(point_is_on_sphere: bool, normal_dot_source: Scalar) -> (r: Result<
    bool,
    RayTracingError,
>)
    ensures
        r == spec_source_is_above_horizon(point_is_on_sphere, normal_dot_source),
{
    if point_is_on_sphere {
        Ok(Scalar::zero().le(normal_dot_source))
    } else {
        Err(RayTracingError::PointNotOnSphere)
    }
}

/// Whether a point on a sphere of a scene sees a source.
///
/// - The sphere is the object at `sphere_index` of a scene of
///   `number_of_objects` objects; where the scene does not reach that far, the
///   question fails first.
/// - Next it fails where the point is not on the sphere.
/// - Below the horizon the point does not see the source, and no ray needs to
///   be cast.
/// - Above it, a ray is cast from the source at the point; `gap` is the
///   distance from the point to where that ray first ends, `None` if it ends
///   nowhere. The point sees the source where the ray ends on it. A ray that
///   ends nowhere was not cast at the point: that is a failure.
///
/// `point_is_on_sphere` and `normal_dot_source` are those of
/// [`source_is_above_horizon`].
pub open spec fn spec_source_is_visible_from_sphere_point(
    number_of_objects: usize,
    sphere_index: usize,
    point_is_on_sphere: bool,
    normal_dot_source: Scalar,
    gap: Option<Scalar>,
) -> Result<bool, RayTracingError> {
    if sphere_index >= number_of_objects {
        Err(RayTracingError::NoSphereAtIndex(sphere_index, number_of_objects))
    } else {
        match spec_source_is_above_horizon(point_is_on_sphere, normal_dot_source) {
            Err(error) => Err(error),
            Ok(above_horizon) => if !above_horizon {
                Ok(false)
            } else {
                match gap {
                    Some(distance) => Ok(spec_coincide(distance)),
                    None => Err(RayTracingError::RayBetweenPointsDoesNotHitPoint),
                }
            },
        }
    }
}

/// Decides whether a point on a sphere of a scene sees a source: see
/// [`spec_source_is_visible_from_sphere_point`].
#[verifier::when_used_as_spec(spec_source_is_visible_from_sphere_point)]
pub fn source_is_visible_from_sphere_point(
    number_of_objects: usize,
    sphere_index: usize,
    point_is_on_sphere: bool,
    normal_dot_source: Scalar,
    gap: Option<Scalar>,
) -> (r: Result<bool, RayTracingError>)
    ensures
        r == spec_source_is_visible_from_sphere_point(
            number_of_objects,
            sphere_index,
            point_is_on_sphere,
            normal_dot_source,
            gap,
        ),
{
    match sphere_at_index(number_of_objects, sphere_index) {
        Err(error) => Err(error),
        Ok(_) => match source_is_above_horizon(point_is_on_sphere, normal_dot_source) {
            Err(error) => Err(error),
            Ok(above_horizon) => if !above_horizon {
                Ok(false)
            } else {
                match gap {
                    Some(distance) => Ok(coincide(distance)),
                    None => Err(RayTracingError::RayBetweenPointsDoesNotHitPoint),
                }
            },
        },
    }
}

/// The failures of the visibility test come in a fixed order, and each comes
/// exactly where it is due: the index out of range whatever else is handed
/// in, the point off the sphere whatever the cast found, and the lost ray
/// only above the horizon.
pub proof fn visibility_fails_in_order(
    number_of_objects: usize,
    sphere_index: usize,
    point_is_on_sphere: bool,
    normal_dot_source: Scalar,
    gap: Option<Scalar>,
)
    ensures
        ({
            let r = source_is_visible_from_sphere_point(
                number_of_objects,
                sphere_index,
                point_is_on_sphere,
                normal_dot_source,
                gap,
            );
            &&& r == Err::<bool, RayTracingError>(
                RayTracingError::NoSphereAtIndex(sphere_index, number_of_objects),
            ) <==> sphere_index >= number_of_objects
            &&& r == Err::<bool, RayTracingError>(RayTracingError::PointNotOnSphere) <==> sphere_index
                < number_of_objects && !point_is_on_sphere
            &&& r == Err::<bool, RayTracingError>(RayTracingError::RayBetweenPointsDoesNotHitPoint)
                <==> sphere_index < number_of_objects && point_is_on_sphere && Scalar::zero().le(
                normal_dot_source,
            ) && gap is None
            &&& r is Ok <==> sphere_index < number_of_objects && point_is_on_sphere && (
            !Scalar::zero().le(normal_dot_source) || gap is Some)
        }),
{
}

/// Whether a source can be mirrored at a point of a sphere: only where the
/// point is on the sphere and the source above its horizon. The arguments are
/// those of [`source_is_above_horizon`].
pub fn source_can_be_reflected(point_is_on_sphere: bool, normal_dot_source: Scalar) -> (r: Result<
    (),
    RayTracingError,
>)
    ensures
        r == match spec_source_is_above_horizon(point_is_on_sphere, normal_dot_source) {
            Ok(above) => if above {
                Ok::<(), RayTracingError>(())
            } else {
                Err::<(), RayTracingError>(RayTracingError::SourceNotVisibleFromPoint)
            },
            Err(error) => Err::<(), RayTracingError>(error),
        },
{
    match source_is_above_horizon(point_is_on_sphere, normal_dot_source) {
        Ok(above) => if above {
            Ok(())
        } else {
            Err(RayTracingError::SourceNotVisibleFromPoint)
        },
        Err(error) => Err(error),
    }
}

/// Whether a source lights a surface directly. `facing` is the dot product of
/// the surface normal with the direction from the surface to the source; the
/// source does not light the surface where that product is zero or negative,
/// and only there.
pub fn source_lights_surface(facing: Scalar) -> (r: Result<(), RayTracingError>)
    ensures
        facing.le(Scalar::zero()) ==> r == Err::<(), RayTracingError>(
            RayTracingError::SourceNotVisibleFromPoint,
        ),
        !facing.le(Scalar::zero()) ==> r == Ok::<(), RayTracingError>(()),
{
    if facing.le(Scalar::zero()) {
        Err(RayTracingError::SourceNotVisibleFromPoint)
    } else {
        Ok(())
    }
}

} // verus!
