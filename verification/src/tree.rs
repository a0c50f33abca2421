//! Trees: their mesh, and where they may stand.
//!
//! Trees are scattered over the sphere but kept off the road, which runs along
//! the equator between two longitudes. A candidate position is turned down where
//! it lies in the thin band around the equator and within the road's span of
//! longitudes. The search stops when enough trees stand or when ten candidates
//! per wanted tree have been tried, whichever comes first.

use vstd::prelude::*;
use crate::mesh::{as_ints, cone_indices, wall_indices, TriangleList};
use crate::scalar::Scalar;

verus! {

/// Number of sides of the trunk.
pub const TRUNK_SIDES: usize = 6;

/// Number of sides of the cone of foliage.
pub const FOLIAGE_SIDES: usize = 8;

/// Candidates tried per wanted tree before the search gives up.
pub const ATTEMPTS_PER_TREE: usize = 10;

/// Seed of the generator that places the trees, another than that of the
/// grass: the same trees on every run.
pub const TREE_SEED: u64 = 123;

/// Bit pattern of `2.5`, the half width of the band around the equator.
pub const EQUATORIAL_THRESHOLD_BITS: u32 = 0x4020_0000;

/// The triangles of a tree: a trunk of six sides over twelve vertices, and on
/// nine vertices of its own a cone of eight sides for the foliage.
pub fn create_tree_mesh() -> (list: TriangleList)
    ensures
        list.vertices() == 21,
        as_ints(list@) == wall_indices(TRUNK_SIDES as nat) + cone_indices(
            12,
            FOLIAGE_SIDES as nat,
        ),
        list.wf(),
{
    TriangleList::prism_and_cone(TRUNK_SIDES, FOLIAGE_SIDES)
}

/// The stretch of the equator that the road takes: from one longitude to another.
#[derive(Debug, Clone, Copy, PartialEq, Eq, Structural)]
pub struct RoadSpan {
    pub start_angle: Scalar,
    pub end_angle: Scalar,
}

impl RoadSpan {
    /// A position with the height `y` over the equatorial plane and the given
    /// longitude is on the road: nearer to the plane than the threshold, and at
    /// a longitude from the start of the road to its end.
    pub open spec fn spec_blocks(&self, y: Scalar, longitude: Scalar) -> bool {
        &&& y.spec_abs().spec_lt(Scalar::of_bits(EQUATORIAL_THRESHOLD_BITS))
        &&& self.start_angle.spec_le(longitude)
        &&& longitude.spec_le(self.end_angle)
    }

    /// Tells whether a position is on the road.
    #[verifier::when_used_as_spec(spec_blocks)]
    pub fn blocks(&self, y: Scalar, longitude: Scalar) -> (r: bool)
        ensures
            r == self.spec_blocks(y, longitude),
    {
        y.abs().lt(Scalar::from_bits(EQUATORIAL_THRESHOLD_BITS)) && longitude.ge(self.start_angle)
            && longitude.le(self.end_angle)
    }
}

/// A candidate position, as far as the road is concerned.
#[derive(Debug, Clone, Copy, PartialEq, Eq, Structural)]
pub struct Candidate {
    /// Height over the equatorial plane.
    pub y: Scalar,
    /// Longitude, from 0 to a full turn.
    pub longitude: Scalar,
}

/// The search for places for trees: how many are wanted, how many candidates
/// were tried, and which were taken.
pub struct TreePlacement {
    road: RoadSpan,
    tree_count: usize,
    attempts: usize,
    placed: Vec<Candidate>,
}

impl TreePlacement {
    /// The road that the trees keep off.
    pub closed spec fn road(&self) -> RoadSpan {
        self.road
    }

    /// Number of trees wanted.
    pub closed spec fn wanted(&self) -> nat {
        self.tree_count as nat
    }

    /// Number of candidates tried so far.
    pub closed spec fn tried(&self) -> nat {
        self.attempts as nat
    }

    /// The candidates taken so far, in the order in which they were offered.
    pub closed spec fn view(&self) -> Seq<Candidate> {
        self.placed@
    }

    /// No more trees stand than are wanted or were tried, no more than ten
    /// candidates per wanted tree were tried, which is a number the machine can
    /// count to, and no tree stands on the road.
    /// Holds of every value of the type.
    #[verifier::type_invariant]
    pub open spec fn wf(&self) -> bool {
        &&& self@.len() <= self.wanted()
        &&& self@.len() <= self.tried()
        &&& self.tried() <= ATTEMPTS_PER_TREE * self.wanted() <= usize::MAX
        &&& forall|i: int|
            0 <= i < self@.len() ==> !self.road().spec_blocks(
                (#[trigger] self@[i]).y,
                self@[i].longitude,
            )
    }

    /// The search goes on: trees are missing and candidates are left to try.
    pub open spec fn spec_wants_candidate(&self) -> bool {
        self@.len() < self.wanted() && self.tried() < ATTEMPTS_PER_TREE * self.wanted()
    }

    /// A search for `tree_count` trees off the road, with nothing tried yet.
    pub fn new(tree_count: usize, road_start_angle: Scalar, road_end_angle: Scalar) -> (search:
        TreePlacement)
        requires
            ATTEMPTS_PER_TREE * tree_count <= usize::MAX,
        ensures
            search.wanted() == tree_count,
            search.tried() == 0,
            search@.len() == 0,
            search.road() == (RoadSpan { start_angle: road_start_angle, end_angle: road_end_angle }),
            search.wf(),
    {
        TreePlacement {
            road: RoadSpan { start_angle: road_start_angle, end_angle: road_end_angle },
            tree_count,
            attempts: 0,
            placed: Vec::new(),
        }
    }

    /// Tells whether the search goes on.
    #[verifier::when_used_as_spec(spec_wants_candidate)]
    pub fn wants_candidate(&self) -> (r: bool)
        ensures
            r == self.spec_wants_candidate(),
    {
        proof {
            use_type_invariant(self);
        }
        if self.placed.len() >= self.tree_count {
            return false;
        }
        self.attempts < ATTEMPTS_PER_TREE * self.tree_count
    }

    /// Tries one candidate. It is taken, and `true` returned, exactly when it is
    /// not on the road; either way it counts as tried.
    pub fn offer(&mut self, candidate: Candidate) -> (taken: bool)
        requires
            old(self).spec_wants_candidate(),
        ensures
            taken == !old(self).road().spec_blocks(candidate.y, candidate.longitude),
            final(self).road() == old(self).road(),
            final(self).wanted() == old(self).wanted(),
            final(self).tried() == old(self).tried() + 1,
            final(self)@ == if taken {
                old(self)@.push(candidate)
            } else {
                old(self)@
            },
            final(self).wf(),
    {
        proof {
            use_type_invariant(&*self);
        }
        let taken = !self.road.blocks(candidate.y, candidate.longitude);
        let mut placed: Vec<Candidate> = Vec::new();
        std::mem::swap(&mut placed, &mut self.placed);
        if taken {
            placed.push(candidate);
        }
        *self = TreePlacement {
            road: self.road,
            tree_count: self.tree_count,
            attempts: self.attempts + 1,
            placed,
        };
        taken
    }

    /// Number of trees that stand.
    pub fn placed_count(&self) -> (n: usize)
        ensures
            n == self@.len(),
            self.wf(),
    {
        proof {
            use_type_invariant(self);
        }
        self.placed.len()
    }

    /// Number of candidates tried.
    pub fn attempts(&self) -> (n: usize)
        ensures
            n == self.tried(),
            self.wf(),
    {
        proof {
            use_type_invariant(self);
        }
        self.attempts
    }

    /// The candidates that were taken, in the order in which they were offered.
    pub fn placed(&self) -> (r: &Vec<Candidate>)
        ensures
            r@ == self@,
            self.wf(),
    {
        proof {
            use_type_invariant(self);
        }
        &self.placed
    }
}

} // verus!
