//! Limits of the cameras' turning.
//!
//! The pitch of a camera is held away from the vertical, where looking
//! straight up or down would flip it over, a turn of the following camera is
//! held within what it may turn in one frame, and the arm on which it follows
//! is only ever shortened by what stands in its way.

use vstd::prelude::*;
use crate::scalar::{Scalar, ZERO_BITS};

verus! {

/// Bit pattern of a quarter turn, the pitch of looking straight up.
pub const VERTICAL_BITS: u32 = 0x3fc9_0fdb;

/// Bit pattern of `-0.1`, the lowest pitch of the following camera: just below
/// the horizontal.
pub const FOLLOW_PITCH_MIN_BITS: u32 = 0xbdcc_cccd;

/// Bit pattern of a quarter turn less `0.1`, the highest pitch of the following
/// camera.
pub const FOLLOW_PITCH_MAX_BITS: u32 = 0x3fbc_430e;

/// Bit pattern of `0.01` less than a quarter turn, the highest pitch of the
/// first-person camera; its lowest pitch is the same downwards.
pub const LOOK_PITCH_MAX_BITS: u32 = 0x3fc7_c82d;

/// The pitch is a number strictly between looking straight down and looking
/// straight up.
pub open spec fn off_vertical(pitch: Scalar) -> bool {
    pitch.spec_abs().spec_lt(Scalar::of_bits(VERTICAL_BITS))
}

/// The pitch that the following camera takes for a wanted pitch: the wanted
/// pitch held between its two limits.
pub fn clamp_follow_pitch(pitch: Scalar) -> (r: Scalar)
    ensures
        r == pitch.spec_clamp(
            Scalar::of_bits(FOLLOW_PITCH_MIN_BITS),
            Scalar::of_bits(FOLLOW_PITCH_MAX_BITS),
        ),
        !pitch.is_nan() ==> off_vertical(r),
        pitch.is_nan() ==> r == pitch,
{
    pitch.clamp(Scalar::from_bits(FOLLOW_PITCH_MIN_BITS), Scalar::from_bits(FOLLOW_PITCH_MAX_BITS))
}

/// The pitch that the first-person camera takes for a wanted pitch: the wanted
/// pitch held between its limit and the same downwards.
pub fn clamp_look_pitch(pitch: Scalar) -> (r: Scalar)
    ensures
        r == pitch.spec_clamp(
            Scalar::of_bits(LOOK_PITCH_MAX_BITS).spec_neg(),
            Scalar::of_bits(LOOK_PITCH_MAX_BITS),
        ),
        !pitch.is_nan() ==> off_vertical(r),
        pitch.is_nan() ==> r == pitch,
{
    let limit = Scalar::from_bits(LOOK_PITCH_MAX_BITS);
    pitch.clamp(limit.neg(), limit)
}

/// The turn that the following camera makes for a wanted turn: the wanted turn
/// held within `max_delta` to either side.
pub fn clamp_turn(delta: Scalar, max_delta: Scalar) -> (r: Scalar)
    requires
        Scalar::of_bits(ZERO_BITS).spec_le(max_delta),
    ensures
        r == delta.spec_clamp(max_delta.spec_neg(), max_delta),
        !delta.is_nan() ==> r.spec_abs().spec_le(max_delta),
        delta.is_nan() ==> r == delta,
{
    delta.clamp(max_delta.neg(), max_delta)
}

/// The length that the arm of the following camera aims for when something
/// stands `distance` away in its line: that distance, but no more than the
/// length the arm has.
pub fn arm_target(distance: Scalar, current_length: Scalar) -> (r: Scalar)
    ensures
        r == distance.spec_min(current_length),
        !distance.is_nan() && !current_length.is_nan() ==> r.spec_le(current_length) && r.spec_le(
            distance,
        ),
{
    distance.min(current_length)
}

} // verus!
