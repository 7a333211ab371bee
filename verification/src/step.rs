//! The decisions of one tick.
//!
//! A tick sums, for every ordered pair of particles, the force that the second
//! exerts on the first, then moves every particle and makes it keep to the
//! world. The sums and products are the caller's; what is decided between them
//! is decided here: whether a displacement is taken the short way round,
//! whether a pair is within reach, which law of force holds at its distance,
//! and what the edge of the world does to a particle.
use crate::scalar::{lemma_neg_mirrors, Scalar};
use vstd::prelude::*;

verus! {

/// What is to be done with a coordinate or a displacement.
#[derive(Clone, Copy, Debug, PartialEq, Eq, Structural)]
pub enum Shift {
    /// Leave it as it is.
    Keep,
    /// Add the extent of the world to it.
    Add,
    /// Subtract the extent of the world from it.
    Subtract,
}

/// Which law of force holds for a pair within reach.
#[derive(Clone, Copy, Debug, PartialEq, Eq, Structural)]
pub enum Band {
    /// At or under the least radius: the pair repels, whatever its rule.
    Close,
    /// Beyond the least radius, flat forces: the attraction of the rule as it
    /// stands.
    FarFlat,
    /// Beyond the least radius: the attraction of the rule, strongest halfway
    /// between the radii and falling to nothing at either.
    FarProfiled,
}

/// The shift that takes a displacement along one axis the short way round a
/// world that wraps: down by the extent when it exceeds half of it, up by the
/// extent when it lies below the negated extent.
pub open spec fn spec_image_shift(
    wrap: bool,
    delta: Scalar,
    half_extent: Scalar,
    extent: Scalar,
) -> Shift {
    if !wrap {
        Shift::Keep
    } else if delta.spec_gt(half_extent) {
        Shift::Subtract
    } else if delta.spec_lt(extent.spec_neg()) {
        Shift::Add
    } else {
        Shift::Keep
    }
}

/// Decides how the displacement `delta` along one axis is corrected, in a
/// world of the given extent and half extent along that axis.
#[verifier::when_used_as_spec(spec_image_shift)]
pub fn image_shift(wrap: bool, delta: Scalar, half_extent: Scalar, extent: Scalar) -> (shift:
    Shift)
    ensures
        shift == spec_image_shift(wrap, delta, half_extent, extent),
{
    if !wrap {
        Shift::Keep
    } else if delta.gt(half_extent) {
        Shift::Subtract
    } else if delta.lt(extent.neg()) {
        Shift::Add
    } else {
        Shift::Keep
    }
}

/// Whether a pair at squared distance `r2` exerts a force, given the square
/// of the greatest radius of its rule: not beyond that, and not under the
/// near limit.
pub open spec fn spec_in_reach(r2: Scalar, reach2: Scalar) -> bool {
    !(r2.spec_gt(reach2) || r2.spec_lt(Scalar::spec_near_limit()))
}

/// Decides whether a pair at squared distance `r2` exerts a force.
#[verifier::when_used_as_spec(spec_in_reach)]
pub fn in_reach(r2: Scalar, reach2: Scalar) -> (reached: bool)
    ensures
        reached == spec_in_reach(r2, reach2),
{
    !(r2.gt(reach2) || r2.lt(Scalar::near_limit()))
}

/// The law of force at distance `r` for a rule of least radius `min_r`.
pub open spec fn spec_band(r: Scalar, min_r: Scalar, flat_force: bool) -> Band {
    if r.spec_gt(min_r) {
        if flat_force {
            Band::FarFlat
        } else {
            Band::FarProfiled
        }
    } else {
        Band::Close
    }
}

/// Decides which law of force holds at distance `r`.
#[verifier::when_used_as_spec(spec_band)]
pub fn band(r: Scalar, min_r: Scalar, flat_force: bool) -> (law: Band)
    ensures
        law == spec_band(r, min_r, flat_force),
{
    if r.gt(min_r) {
        if flat_force {
            Band::FarFlat
        } else {
            Band::FarProfiled
        }
    } else {
        Band::Close
    }
}

/// The shift that brings a coordinate back into a world that wraps: up by the
/// extent when it is below zero, down by the extent when it has reached it.
pub open spec fn spec_wrap_shift(coordinate: Scalar, extent: Scalar) -> Shift {
    if coordinate.spec_lt(Scalar::spec_zero()) {
        Shift::Add
    } else if coordinate.spec_ge(extent) {
        Shift::Subtract
    } else {
        Shift::Keep
    }
}

/// Decides how a coordinate is brought back into a world that wraps.
#[verifier::when_used_as_spec(spec_wrap_shift)]
pub fn wrap_shift(coordinate: Scalar, extent: Scalar) -> (shift: Shift)
    ensures
        shift == spec_wrap_shift(coordinate, extent),
{
    if coordinate.lt(Scalar::zero()) {
        Shift::Add
    } else if coordinate.ge(extent) {
        Shift::Subtract
    } else {
        Shift::Keep
    }
}

/// What walls do to a coordinate and the speed along it. The near wall
/// stands one diameter inside the world, the far wall at `far_wall`; a
/// particle at or beyond either is set on it and its speed reversed.
pub open spec fn spec_reflect(coordinate: Scalar, speed: Scalar, far_wall: Scalar) -> (
    Scalar,
    Scalar,
) {
    if coordinate.spec_le(Scalar::spec_diameter()) {
        (Scalar::spec_diameter(), speed.spec_neg())
    } else if coordinate.spec_ge(far_wall) {
        (far_wall, speed.spec_neg())
    } else {
        (coordinate, speed)
    }
}

/// Keeps a particle between the walls along one axis: returns its coordinate
/// and its speed after the walls had their say.
#[verifier::when_used_as_spec(spec_reflect)]
pub fn reflect(coordinate: Scalar, speed: Scalar, far_wall: Scalar) -> (kept: (Scalar, Scalar))
    ensures
        kept == spec_reflect(coordinate, speed, far_wall),
{
    if coordinate.le(Scalar::diameter()) {
        (Scalar::diameter(), speed.neg())
    } else if coordinate.ge(far_wall) {
        (far_wall, speed.neg())
    } else {
        (coordinate, speed)
    }
}

/// Whether `k` is the first place of `distances2` that holds a squared
/// distance under `limit2`.
pub open spec fn is_first_within(distances2: Seq<Scalar>, limit2: Scalar, k: int) -> bool {
    &&& 0 <= k < distances2.len()
    &&& distances2[k].spec_lt(limit2)
    &&& forall|m: int| 0 <= m < k ==> !(#[trigger] distances2[m]).spec_lt(limit2)
}

/// Finds the first of `distances2` that lies under `limit2`: the lowest index
/// wins, and there is none exactly when no distance lies under the limit.
pub fn first_within(distances2: &Vec<Scalar>, limit2: Scalar) -> (found: Option<usize>)
    ensures
        found matches Some(k) ==> is_first_within(distances2@, limit2, k as int),
        found.is_none() ==> forall|m: int|
            0 <= m < distances2@.len() ==> !(#[trigger] distances2@[m]).spec_lt(limit2),
{
    let mut k: usize = 0;
    while k < distances2.len()
        invariant
            k <= distances2@.len(),
            forall|m: int| 0 <= m < k ==> !(#[trigger] distances2@[m]).spec_lt(limit2),
        decreases distances2@.len() - k,
    {
        if distances2[k].lt(limit2) {
            return Some(k);
        }
        k += 1;
    }
    None
}

/// A pair beyond the reach of its rule exerts no force.
pub proof fn lemma_beyond_reach_is_skipped(r2: Scalar, reach2: Scalar)
    requires
        r2.spec_gt(reach2),
    ensures
        !spec_in_reach(r2, reach2),
{
}

/// A pair under the near limit exerts no force, whatever the reach of its
/// rule; a particle and itself are such a pair.
pub proof fn lemma_too_near_is_skipped(r2: Scalar, reach2: Scalar)
    requires
        r2.spec_lt(Scalar::spec_near_limit()),
    ensures
        !spec_in_reach(r2, reach2),
        !spec_in_reach(Scalar::spec_zero(), reach2),
{
}

/// A particle that stands exactly on the far edge of a world that wraps is
/// taken down by the extent, so to the near edge.
pub proof fn lemma_on_the_edge_wraps(extent: Scalar)
    requires
        !extent.spec_is_nan(),
        extent.spec_ge(Scalar::spec_zero()),
    ensures
        spec_wrap_shift(extent, extent) == Shift::Subtract,
{
}

/// A particle at or inside the near wall is set on the wall, and a speed
/// that led into the wall leads out of it.
pub proof fn lemma_near_wall_reflects(coordinate: Scalar, speed: Scalar, far_wall: Scalar)
    requires
        coordinate.spec_le(Scalar::spec_diameter()),
    ensures
        spec_reflect(coordinate, speed, far_wall).0 == Scalar::spec_diameter(),
        spec_reflect(coordinate, speed, far_wall).1 == speed.spec_neg(),
        speed.spec_lt(Scalar::spec_zero()) ==> spec_reflect(coordinate, speed, far_wall).1.spec_gt(
            Scalar::spec_zero(),
        ),
        !spec_reflect(coordinate, speed, far_wall).0.spec_lt(Scalar::spec_zero()),
{
    lemma_neg_mirrors(speed);
}

/// Between walls that stand apart, a coordinate that is no NaN ends between
/// them, both walls included.
pub proof fn lemma_reflect_keeps_inside(coordinate: Scalar, speed: Scalar, far_wall: Scalar)
    requires
        !coordinate.spec_is_nan(),
        far_wall.spec_ge(Scalar::spec_diameter()),
    ensures
        spec_reflect(coordinate, speed, far_wall).0.spec_ge(Scalar::spec_diameter()),
        spec_reflect(coordinate, speed, far_wall).0.spec_le(far_wall),
{
}

} // verus!
