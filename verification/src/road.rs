//! The road: a strip of quads laid along a path on the sphere.

use vstd::prelude::*;
use crate::mesh::{as_ints, ribbon_indices, TriangleList, MAX_VERTICES};

verus! {

/// Number of segments of the road along the equator.
pub const ROAD_SEGMENTS: usize = 50;

/// The triangles of the road along the equator: a ladder of 50 quads over 51
/// pairs of a left and a right vertex.
pub fn generate_road_mesh() -> (list: TriangleList)
    ensures
        list.vertices() == 102,
        as_ints(list@) == ribbon_indices(ROAD_SEGMENTS as nat),
        list.wf(),
{
    TriangleList::ribbon(ROAD_SEGMENTS)
}

/// The triangles of a road of `segments` quads along a great circle, over
/// `segments + 1` pairs of a left and a right vertex.
pub fn generate_curved_road(segments: usize) -> (list: TriangleList)
    requires
        1 <= segments,
        2 * (segments + 1) <= MAX_VERTICES,
    ensures
        list.vertices() == 2 * (segments + 1),
        as_ints(list@) == ribbon_indices(segments as nat),
        list.wf(),
{
    TriangleList::ribbon(segments)
}

} // verus!
