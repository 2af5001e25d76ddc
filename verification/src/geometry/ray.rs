//! Where a ray meets a sphere, and which of the spheres of a scene it meets
//! first.

use crate::error::RayTracingError;
use crate::geometry::vector::normalize;
use crate::scalar::Scalar;
use vstd::prelude::*;

verus! {

/// The smaller of the roots that are not negative, if there is one. A root
/// that is no number counts as negative. Of two equal roots the first is
/// taken.
pub open spec fn smallest_non_negative(first: Scalar, second: Scalar) -> Option<Scalar> {
    if Scalar::zero().le(first) && Scalar::zero().le(second) {
        if second.lt(first) {
            Some(second)
        } else {
            Some(first)
        }
    } else if Scalar::zero().le(first) {
        Some(first)
    } else if Scalar::zero().le(second) {
        Some(second)
    } else {
        None
    }
}

/// The distance along a ray at which it meets a sphere, from the quadratic
/// `t^2 + b t + c = 0` that the two define: `delta` is its discriminant
/// `b^2 - 4c`, `tangent_root` is `-b / 2`, and `first_root` and `second_root`
/// are `(-b - sqrt(delta)) / 2` and `(-b + sqrt(delta)) / 2`.
///
/// - `delta < -1e-12`, or no number: the ray misses.
/// - `-1e-12 <= delta <= 1e-12`: the line of the ray is tangent. The ray meets
///   the sphere at `tangent_root` where that root is not negative, and misses
///   it where the point of tangency lies behind its origin.
/// - `delta > 1e-12`: the ray meets the sphere at the smallest root that is not
///   negative, and misses it where both are negative.
///
/// A sphere behind the origin is never met: no distance is negative.
pub open spec fn hit_distance(
    delta: Scalar,
    tangent_root: Scalar,
    first_root: Scalar,
    second_root: Scalar,
) -> Option<Scalar> {
    if delta.is_nan() || delta.lt(Scalar::epsilon().negated()) {
        None
    } else if delta.le(Scalar::epsilon()) {
        if Scalar::zero().le(tangent_root) {
            Some(tangent_root)
        } else {
            None
        }
    } else {
        smallest_non_negative(first_root, second_root)
    }
}

/// Whether and where a ray meets a sphere. A ray without direction meets
/// nothing and is no ray: where the magnitude of its direction is zero the
/// question fails, whatever the other quantities are. Any other ray meets the
/// sphere at [`hit_distance`].
pub open spec fn spec_intersect(
    direction_norme: Scalar,
    delta: Scalar,
    tangent_root: Scalar,
    first_root: Scalar,
    second_root: Scalar,
) -> Result<Option<Scalar>, RayTracingError> {
    if direction_norme.is_zero() {
        Err(RayTracingError::VectorHasNormeZero)
    } else {
        Ok(hit_distance(delta, tangent_root, first_root, second_root))
    }
}

/// Decides whether and where a ray meets a sphere, from the magnitude of the
/// ray's direction and from the discriminant and the candidate roots of the
/// quadratic of the two: see [`spec_intersect`].
#[verifier::when_used_as_spec(spec_intersect)]
pub fn intersect(
    direction_norme: Scalar,
    delta: Scalar,
    tangent_root: Scalar,
    first_root: Scalar,
    second_root: Scalar,
) -> (r: Result<Option<Scalar>, RayTracingError>)
    ensures
        r == spec_intersect(direction_norme, delta, tangent_root, first_root, second_root),
{
    match normalize(direction_norme) {
        Err(error) => Err(error),
        Ok(()) => Ok(nearest_root(delta, tangent_root, first_root, second_root)),
    }
}

fn nearest_root(delta: Scalar, tangent_root: Scalar, first_root: Scalar, second_root: Scalar) -> (found:
    Option<Scalar>)
    ensures
        found == hit_distance(delta, tangent_root, first_root, second_root),
{
    if delta.is_nan() || delta.lt(Scalar::epsilon().negated()) {
        None
    } else if delta.le(Scalar::epsilon()) {
        if Scalar::zero().le(tangent_root) {
            Some(tangent_root)
        } else {
            None
        }
    } else {
        let first_ahead: bool = Scalar::zero().le(first_root);
        let second_ahead: bool = Scalar::zero().le(second_root);
        if first_ahead && second_ahead {
            if second_root.lt(first_root) {
                Some(second_root)
            } else {
                Some(first_root)
            }
        } else if first_ahead {
            Some(first_root)
        } else if second_ahead {
            Some(second_root)
        } else {
            None
        }
    }
}

/// The point of the unit sphere that the stream of random points has handed
/// out, by its three coordinates. A stream that hands out nothing has run
/// dry, and the draw fails.
pub fn drawn_direction(drawn: Option<(Scalar, Scalar, Scalar)>) -> (r: Result<
    (Scalar, Scalar, Scalar),
    RayTracingError,
>)
    ensures
        r == match drawn {
            Some(point) => Ok::<(Scalar, Scalar, Scalar), RayTracingError>(point),
            None => Err::<(Scalar, Scalar, Scalar), RayTracingError>(
                RayTracingError::IteratorDepleted,
            ),
        },
{
    match drawn {
        Some(point) => Ok(point),
        None => Err(RayTracingError::IteratorDepleted),
    }
}

/// Whether a direction drawn on the unit sphere enters the surface it is to
/// leave, and is to be reversed: it does where its dot product with the
/// surface normal is negative.
pub fn direction_enters_surface(normal_dot_direction: Scalar) -> (enters: bool)
    ensures
        enters == normal_dot_direction.lt(Scalar::zero()),
{
    normal_dot_direction.lt(Scalar::zero())
}

/// What a ray found at one object of the scene.
#[derive(Clone, Copy, Debug)]
pub enum Probe {
    /// The object was left out of the search.
    Ignored,
    /// The ray does not meet the object.
    Missed,
    /// The ray meets the object at this distance.
    Hit(Scalar),
}

impl Probe {
    /// The rank of the distance of a hit.
    pub open spec fn rank(self) -> int
        recommends
            self is Hit,
    {
        self->Hit_0.rank()
    }
}

/// Whether `nearest` is the hit that a scan of `probes` in order keeps: no hit
/// is nearer, and no later hit is as near.
pub open spec fn is_nearest_hit(probes: Seq<Probe>, nearest: int) -> bool {
    &&& 0 <= nearest < probes.len()
    &&& probes[nearest] is Hit
    &&& forall|i: int|
        0 <= i < probes.len() && #[trigger] probes[i] is Hit ==> probes[nearest].rank()
            <= probes[i].rank()
    &&& forall|i: int|
        nearest < i < probes.len() && #[trigger] probes[i] is Hit ==> probes[nearest].rank()
            < probes[i].rank()
}

/// The nearest hit among what a ray found at each object of a scene, given in
/// the order of the scene. Of several hits at one distance the last counts.
/// `None` where nothing was hit.
pub fn first_point_hit_by_ray(probes: &Vec<Probe>) -> (nearest: Option<usize>)
    ensures
        nearest is None <==> forall|i: int| 0 <= i < probes.len() ==> !(#[trigger] probes[i] is Hit),
        nearest matches Some(k) ==> is_nearest_hit(probes@, k as int),
{
    let mut nearest: Option<usize> = None;
    let mut closest: Scalar = Scalar::zero();
    let mut i: usize = 0;
    while i < probes.len()
        invariant
            0 <= i <= probes.len(),
            nearest is None <==> forall|j: int| 0 <= j < i ==> !(#[trigger] probes[j] is Hit),
            nearest matches Some(k) ==> is_nearest_hit(probes@.take(i as int), k as int)
                && probes[k as int] == Probe::Hit(closest),
        decreases probes.len() - i,
    {
        let ghost before = probes@.take(i as int);
        let ghost after = probes@.take(i + 1);
        assert(forall|j: int| 0 <= j < i ==> before[j] == after[j]);
        match probes[i] {
            Probe::Hit(distance) => {
                let nearer: bool = match nearest {
                    None => true,
                    Some(_) => distance.ranks_at_most(closest),
                };
                if nearer {
                    nearest = Some(i);
                    closest = distance;
                }
            },
            _ => {},
        }
        i = i + 1;
    }
    assert(probes@.take(probes.len() as int) == probes@);
    nearest
}

/// An object left out of the search is never the nearest hit, however near the
/// ray passes: the nearest hit is always a hit.
pub proof fn ignored_object_is_never_hit(probes: Seq<Probe>, nearest: int, ignored: int)
    requires
        is_nearest_hit(probes, nearest),
        0 <= ignored < probes.len(),
        probes[ignored] is Ignored,
    ensures
        nearest != ignored,
{
}

/// A scan has at most one nearest hit.
pub proof fn nearest_hit_is_unique(probes: Seq<Probe>, a: int, b: int)
    requires
        is_nearest_hit(probes, a),
        is_nearest_hit(probes, b),
    ensures
        a == b,
{
    if a < b {
        assert(probes[b] is Hit);
    } else if b < a {
        assert(probes[a] is Hit);
    }
}

/// A sphere behind the ray is not met: where the discriminant is positive
/// and both roots are negative, there is no hit.
pub proof fn sphere_behind_is_missed(delta: Scalar, tangent_root: Scalar, first: Scalar, second: Scalar)
    requires
        Scalar::epsilon().lt(delta),
        first.lt(Scalar::zero()),
        second.lt(Scalar::zero()),
    ensures
        hit_distance(delta, tangent_root, first, second) is None,
{
}

/// A ray that crosses a sphere ahead of it meets it at the near root: where
/// the discriminant is positive and `0 <= first <= second`, the hit distance
/// is `first`.
pub proof fn sphere_ahead_is_met_at_near_root(
    delta: Scalar,
    tangent_root: Scalar,
    first: Scalar,
    second: Scalar,
)
    requires
        Scalar::epsilon().lt(delta),
        Scalar::zero().le(first),
        first.le(second),
    ensures
        hit_distance(delta, tangent_root, first, second) == Some(first),
{
}

/// A tangent ray has a single hit: where the discriminant is within `1e-12`
/// of zero and the point of tangency is not behind the origin, the hit
/// distance is the tangent root, whatever the other roots.
pub proof fn tangent_ray_has_one_hit(delta: Scalar, tangent_root: Scalar, first: Scalar, second: Scalar)
    requires
        delta.within(Scalar::epsilon().negated(), Scalar::epsilon()),
        Scalar::zero().le(tangent_root),
    ensures
        hit_distance(delta, tangent_root, first, second) == Some(tangent_root),
{
}

/// A ray that points away from a sphere misses it: where every candidate
/// root is negative, whatever the discriminant, there is no hit.
pub proof fn ray_pointing_away_is_missed(
    delta: Scalar,
    tangent_root: Scalar,
    first: Scalar,
    second: Scalar,
)
    requires
        tangent_root.lt(Scalar::zero()),
        first.lt(Scalar::zero()),
        second.lt(Scalar::zero()),
    ensures
        hit_distance(delta, tangent_root, first, second) is None,
        forall|direction_norme: Scalar|
            !direction_norme.is_zero() ==> #[trigger] spec_intersect(
                direction_norme,
                delta,
                tangent_root,
                first,
                second,
            ) == Ok::<Option<Scalar>, RayTracingError>(None),
{
}

/// No hit lies behind the origin of the ray: a hit distance is one of the
/// candidate roots, and it is a number that is not negative.
pub proof fn hit_is_never_behind_the_origin(
    delta: Scalar,
    tangent_root: Scalar,
    first: Scalar,
    second: Scalar,
)
    ensures
        hit_distance(delta, tangent_root, first, second) matches Some(distance) ==> {
            &&& Scalar::zero().le(distance)
            &&& distance == tangent_root || distance == first || distance == second
        },
{
}

} // verus!
