//! The limits of a character's motion over the sphere.
//!
//! A character turns towards where it is steered by no more than its turning
//! rate allows in one step, and its velocity closes in on the velocity wanted by
//! no more than its acceleration allows, so that neither ever overshoots. What
//! is too small to count (an idle stick, a turn already made) is left alone.
//! After every step the character is set back onto the surface. The vectors
//! and their lengths are the caller's arithmetic; this module holds the limits.

use vstd::prelude::*;
use crate::scalar::{Scalar, ONE_BITS, ZERO_BITS};

verus! {

/// Bit pattern of `0.01`: an input axis counts when its magnitude is above this,
/// and a turn is made when the angle is above it.
pub const SMALL_BITS: u32 = 0x3c23_d70a;

/// Bit pattern of `0.1`: a direction counts when its length is above this.
pub const DIRECTION_BITS: u32 = 0x3dcc_cccd;

/// What a step does to the velocity.
#[derive(Debug, Clone, Copy, PartialEq, Eq, Structural)]
pub enum VelocityStep {
    /// The velocity wanted is further off than one step reaches: the velocity
    /// moves one step towards it.
    Approach,
    /// The velocity wanted is within the reach of one step: the velocity
    /// becomes the velocity wanted.
    Arrive,
}

/// One of the two input axes is moved far enough to count.
pub open spec fn spec_has_input(forward: Scalar, right: Scalar) -> bool {
    Scalar::of_bits(SMALL_BITS).spec_lt(forward.spec_abs()) || Scalar::of_bits(SMALL_BITS).spec_lt(
        right.spec_abs(),
    )
}

/// Tells whether the character is steered at all.
#[verifier::when_used_as_spec(spec_has_input)]
pub fn has_input(forward: Scalar, right: Scalar) -> (r: bool)
    ensures
        r == spec_has_input(forward, right),
{
    let small = Scalar::from_bits(SMALL_BITS);
    small.lt(forward.abs()) || small.lt(right.abs())
}

/// Tells whether a direction of the given length is one: a length above `0.1`.
pub fn has_direction(length: Scalar) -> (r: bool)
    ensures
        r == Scalar::of_bits(DIRECTION_BITS).spec_lt(length),
{
    Scalar::from_bits(DIRECTION_BITS).lt(length)
}

/// The cosine of an angle as it is safe to take the angle of: held between
/// `-1` and `1`, beyond which rounding may have carried it.
pub fn clamp_cosine(cosine: Scalar) -> (r: Scalar)
    ensures
        r == cosine.spec_clamp(Scalar::of_bits(ONE_BITS).spec_neg(), Scalar::of_bits(ONE_BITS)),
        !cosine.is_nan() ==> r.spec_abs().spec_le(Scalar::of_bits(ONE_BITS)),
        cosine.is_nan() ==> r == cosine,
{
    let one = Scalar::one();
    cosine.clamp(one.neg(), one)
}

/// The angle by which the character turns in one step towards a direction that
/// is `angle` away, where its turning rate allows `max_turn` in the step:
/// nothing where the angle is not above `0.01`, else the smaller of the two.
pub open spec fn spec_turn_amount(max_turn: Scalar, angle: Scalar) -> Option<Scalar> {
    if Scalar::of_bits(SMALL_BITS).spec_lt(angle) {
        Some(max_turn.spec_min(angle))
    } else {
        None
    }
}

/// The angle by which the character turns in one step, or `None` where it does
/// not turn.
///
/// The turn is never more than the angle to the direction wanted, and never
/// more than the turning rate allows.
#[verifier::when_used_as_spec(spec_turn_amount)]
pub fn turn_amount(max_turn: Scalar, angle: Scalar) -> (r: Option<Scalar>)
    ensures
        r == spec_turn_amount(max_turn, angle),
        r matches Some(turn) ==> turn.spec_le(angle) && (!max_turn.is_nan() ==> turn.spec_le(
            max_turn,
        )),
{
    if Scalar::from_bits(SMALL_BITS).lt(angle) {
        Some(max_turn.min(angle))
    } else {
        None
    }
}

/// What a step does to the velocity, where the velocity wanted is `gap` away and
/// one step reaches `reach`.
pub open spec fn spec_velocity_step(gap: Scalar, reach: Scalar) -> VelocityStep {
    if reach.spec_lt(gap) {
        VelocityStep::Approach
    } else {
        VelocityStep::Arrive
    }
}

/// Decides what a step does to the velocity.
///
/// The velocity moves by a full step only where the velocity wanted is
/// further off than the step reaches, so it never passes the velocity wanted.
#[verifier::when_used_as_spec(spec_velocity_step)]
pub fn velocity_step(gap: Scalar, reach: Scalar) -> (r: VelocityStep)
    ensures
        r == spec_velocity_step(gap, reach),
        r == VelocityStep::Approach ==> reach.spec_lt(gap),
{
    if reach.lt(gap) {
        VelocityStep::Approach
    } else {
        VelocityStep::Arrive
    }
}

/// Tells whether a character at the given distance from the centre of the
/// planet can be set back onto the surface: not at the centre itself, where no
/// direction leads outwards.
pub fn can_project(distance: Scalar) -> (r: bool)
    ensures
        r == Scalar::of_bits(ZERO_BITS).spec_lt(distance),
{
    Scalar::zero().lt(distance)
}

} // verus!
