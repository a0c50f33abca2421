//! The frame of an instance that stands on the sphere.
//!
//! An instance stands upright along the direction away from the centre of the
//! planet. Its sideways axis is taken across that direction and the axis of the
//! world, which fails where the two are nearly the same line: there a fixed axis
//! takes its place.

use vstd::prelude::*;
use crate::scalar::Scalar;

verus! {

/// Bit pattern of `0.99`: the alignment above which the axis of the world is
/// too close to the upright direction.
pub const ALIGNED_BITS: u32 = 0x3f7d_70a4;

/// The upright direction and the axis of the world are nearly one line: the
/// magnitude of their dot product is above `0.99`.
pub open spec fn spec_needs_fallback_axis(alignment: Scalar) -> bool {
    Scalar::of_bits(ALIGNED_BITS).spec_lt(alignment.spec_abs())
}

/// Tells whether the fixed axis has to stand in for the axis of the world,
/// where `alignment` is the dot product of the upright direction and the axis
/// of the world, both of length one.
#[verifier::when_used_as_spec(spec_needs_fallback_axis)]
pub fn needs_fallback_axis(alignment: Scalar) -> (r: bool)
    ensures
        r == spec_needs_fallback_axis(alignment),
{
    Scalar::from_bits(ALIGNED_BITS).lt(alignment.abs())
}

} // verus!
