//! Levels of detail of the vegetation.
//!
//! Every instance is drawn in one of four tiers, chosen by its distance from the
//! viewer. The tiers cover the distances from zero on without gap or overlap.

use vstd::prelude::*;
use crate::mesh::{as_ints, blade_indices, TriangleList};
use crate::scalar::{Scalar, ONE_BITS, ZERO_BITS};

verus! {

/// Bit pattern of `10.0`, where the full tier ends.
pub const FULL_END_BITS: u32 = 0x4120_0000;

/// Bit pattern of `30.0`, where the reduced tier ends.
pub const REDUCED_END_BITS: u32 = 0x41f0_0000;

/// Bit pattern of `50.0`, where the billboard tier ends.
pub const BILLBOARD_END_BITS: u32 = 0x4248_0000;

/// Bit pattern of `60.0`, where the fade tier has faded out.
pub const FADE_END_BITS: u32 = 0x4270_0000;

/// The tier in which an instance is drawn.
#[derive(Debug, Clone, Copy, PartialEq, Eq, Structural)]
pub enum LodLevel {
    /// Full geometric detail, below 10 units.
    Full,
    /// Fewer vertices, from 10 to below 30 units.
    Reduced,
    /// A flat quad, from 30 to below 50 units.
    Billboard,
    /// The quad fading out, from 50 units on.
    Fade,
}

impl LodLevel {
    /// Place of the tier in the order from near to far: 0 to 3.
    pub open spec fn spec_index(&self) -> usize {
        match self {
            LodLevel::Full => 0,
            LodLevel::Reduced => 1,
            LodLevel::Billboard => 2,
            LodLevel::Fade => 3,
        }
    }

    /// The distance at which the tier begins.
    pub open spec fn spec_start_distance(&self) -> Scalar {
        match self {
            LodLevel::Full => Scalar::of_bits(0),
            LodLevel::Reduced => Scalar::of_bits(FULL_END_BITS),
            LodLevel::Billboard => Scalar::of_bits(REDUCED_END_BITS),
            LodLevel::Fade => Scalar::of_bits(BILLBOARD_END_BITS),
        }
    }

    /// The distance at which the tier ends.
    pub open spec fn spec_max_distance(&self) -> Scalar {
        match self {
            LodLevel::Full => Scalar::of_bits(FULL_END_BITS),
            LodLevel::Reduced => Scalar::of_bits(REDUCED_END_BITS),
            LodLevel::Billboard => Scalar::of_bits(BILLBOARD_END_BITS),
            LodLevel::Fade => Scalar::of_bits(FADE_END_BITS),
        }
    }

    /// The tier of a distance: the first whose end the distance is below, and
    /// the fade tier where it is below none. So a distance of 60 or more, and a
    /// NaN, fall to the fade tier, and a negative distance to the full tier.
    pub open spec fn spec_from_distance(distance: Scalar) -> LodLevel {
        if distance.spec_lt(Scalar::of_bits(FULL_END_BITS)) {
            LodLevel::Full
        } else if distance.spec_lt(Scalar::of_bits(REDUCED_END_BITS)) {
            LodLevel::Reduced
        } else if distance.spec_lt(Scalar::of_bits(BILLBOARD_END_BITS)) {
            LodLevel::Billboard
        } else {
            LodLevel::Fade
        }
    }

    /// The distance lies in the range of the tier: from its start on and below its
    /// end, where the fade tier has no end.
    pub open spec fn covers(&self, distance: Scalar) -> bool {
        self.spec_start_distance().spec_le(distance) && (*self == LodLevel::Fade
            || distance.spec_lt(self.spec_max_distance()))
    }

    /// The tier of a distance.
    #[verifier::when_used_as_spec(spec_from_distance)]
    pub fn from_distance(distance: Scalar) -> (level: LodLevel)
        ensures
            level == LodLevel::spec_from_distance(distance),
    {
        if distance.lt(Scalar::from_bits(FULL_END_BITS)) {
            LodLevel::Full
        } else if distance.lt(Scalar::from_bits(REDUCED_END_BITS)) {
            LodLevel::Reduced
        } else if distance.lt(Scalar::from_bits(BILLBOARD_END_BITS)) {
            LodLevel::Billboard
        } else {
            LodLevel::Fade
        }
    }

    /// The distance at which the tier ends: 10, 30, 50 and 60 units.
    #[verifier::when_used_as_spec(spec_max_distance)]
    pub fn max_distance(&self) -> (d: Scalar)
        ensures
            d == self.spec_max_distance(),
    {
        match self {
            LodLevel::Full => Scalar::from_bits(FULL_END_BITS),
            LodLevel::Reduced => Scalar::from_bits(REDUCED_END_BITS),
            LodLevel::Billboard => Scalar::from_bits(BILLBOARD_END_BITS),
            LodLevel::Fade => Scalar::from_bits(FADE_END_BITS),
        }
    }

    /// The distance at which the tier begins: 0, 10, 30 and 50 units.
    #[verifier::when_used_as_spec(spec_start_distance)]
    pub fn start_distance(&self) -> (d: Scalar)
        ensures
            d == self.spec_start_distance(),
    {
        match self {
            LodLevel::Full => Scalar::from_bits(0),
            LodLevel::Reduced => Scalar::from_bits(FULL_END_BITS),
            LodLevel::Billboard => Scalar::from_bits(REDUCED_END_BITS),
            LodLevel::Fade => Scalar::from_bits(BILLBOARD_END_BITS),
        }
    }

    /// How far an instance at `distance` has come through the range of the
    /// tier: 0 at the start of the range and before it, 1 at its end and
    /// beyond, and between the two `progress`, held between 0 and 1, where
    /// `progress` is the distance beyond the start of the range divided by the
    /// length of the range.
    pub open spec fn spec_fade_factor(&self, distance: Scalar, progress: Scalar) -> Scalar {
        if distance.spec_le(self.spec_start_distance()) {
            Scalar::of_bits(ZERO_BITS)
        } else if self.spec_max_distance().spec_le(distance) {
            Scalar::of_bits(ONE_BITS)
        } else {
            progress.spec_clamp(Scalar::of_bits(ZERO_BITS), Scalar::of_bits(ONE_BITS))
        }
    }

    /// How far an instance at `distance` has come through the range of the tier.
    ///
    /// The factor is `0.0` up to the start of the range and `1.0` from its end
    /// on, whatever `progress` is. Within the range it is `progress` held between
    /// 0 and 1, so a number from 0 to 1 unless `progress` is a NaN. Where the
    /// distance is a NaN the factor is `progress` held in the same way.
    #[verifier::when_used_as_spec(spec_fade_factor)]
    pub fn fade_factor(&self, distance: Scalar, progress: Scalar) -> (factor: Scalar)
        ensures
            factor == self.spec_fade_factor(distance, progress),
            distance.spec_le(self.spec_start_distance()) ==> factor == Scalar::of_bits(ZERO_BITS),
            self.spec_max_distance().spec_le(distance) ==> factor == Scalar::of_bits(ONE_BITS),
            !progress.is_nan() ==> factor.in_unit_interval(),
            factor.is_nan() ==> progress.is_nan(),
    {
        if distance.le(self.start_distance()) {
            Scalar::zero()
        } else if self.max_distance().le(distance) {
            Scalar::one()
        } else {
            progress.clamp_unit()
        }
    }

    /// The fade factor does not fall as the distance grows, where the progress
    /// through the range does not fall either.
    pub proof fn lemma_fade_factor_monotonic(
        &self,
        near: Scalar,
        near_progress: Scalar,
        far: Scalar,
        far_progress: Scalar,
    )
        requires
            near.spec_le(far),
            near_progress.spec_le(far_progress),
        ensures
            self.spec_fade_factor(near, near_progress).spec_le(
                self.spec_fade_factor(far, far_progress),
            ),
    {
    }

    /// Place of the tier in the order from near to far.
    #[verifier::when_used_as_spec(spec_index)]
    pub fn index(&self) -> (i: usize)
        ensures
            i == self.spec_index(),
            i < 4,
    {
        match self {
            LodLevel::Full => 0,
            LodLevel::Reduced => 1,
            LodLevel::Billboard => 2,
            LodLevel::Fade => 3,
        }
    }

    /// A distance that is no smaller falls into a tier that is no nearer.
    pub proof fn lemma_from_distance_monotonic(near: Scalar, far: Scalar)
        requires
            near.spec_le(far),
        ensures
            LodLevel::spec_from_distance(near).spec_index() <= LodLevel::spec_from_distance(
                far,
            ).spec_index(),
    {
    }

    /// The ranges of the four tiers part the distances from zero on: each such
    /// distance lies in the range of its own tier and of no other.
    pub proof fn lemma_ranges_partition(distance: Scalar, level: LodLevel)
        requires
            Scalar::of_bits(0).spec_le(distance),
        ensures
            level.covers(distance) <==> level == LodLevel::spec_from_distance(distance),
    {
    }

    /// Each tier begins where the one before it ends, the first at zero.
    pub proof fn lemma_ranges_contiguous()
        ensures
            LodLevel::Full.spec_start_distance().bits == 0,
            LodLevel::Reduced.spec_start_distance() == LodLevel::Full.spec_max_distance(),
            LodLevel::Billboard.spec_start_distance() == LodLevel::Reduced.spec_max_distance(),
            LodLevel::Fade.spec_start_distance() == LodLevel::Billboard.spec_max_distance(),
            LodLevel::Full.spec_max_distance().spec_lt(LodLevel::Reduced.spec_max_distance()),
            LodLevel::Reduced.spec_max_distance().spec_lt(LodLevel::Billboard.spec_max_distance()),
            LodLevel::Billboard.spec_max_distance().spec_lt(LodLevel::Fade.spec_max_distance()),
    {
    }
}

/// The places in `levels` that hold `level`, in rising order.
pub open spec fn positions_of(levels: Seq<LodLevel>, level: LodLevel) -> Seq<int>
    decreases levels.len(),
{
    if levels.len() == 0 {
        Seq::empty()
    } else {
        let before = positions_of(levels.drop_last(), level);
        if levels.last() == level {
            before.push(levels.len() - 1)
        } else {
            before
        }
    }
}

/// `positions_of` lists exactly the places that hold the level, each once and
/// in rising order.
pub proof fn lemma_positions_of(levels: Seq<LodLevel>, level: LodLevel)
    ensures
        positions_of(levels, level).len() <= levels.len(),
        forall|k: int|
            0 <= k < positions_of(levels, level).len() ==> 0 <= (#[trigger] positions_of(
                levels,
                level,
            )[k]) < levels.len() && levels[positions_of(levels, level)[k]] == level,
        forall|j: int, k: int|
            0 <= j < k < positions_of(levels, level).len() ==> positions_of(levels, level)[j]
                < positions_of(levels, level)[k],
        forall|i: int|
            0 <= i < levels.len() && levels[i] == level ==> positions_of(levels, level).contains(
                i,
            ),
    decreases levels.len(),
{
    if levels.len() > 0 {
        let head = levels.drop_last();
        let before = positions_of(head, level);
        let all = positions_of(levels, level);
        lemma_positions_of(head, level);
        assert forall|i: int| 0 <= i < levels.len() && levels[i] == level implies all.contains(
            i,
        ) by {
            if i < head.len() {
                assert(head[i] == level);
                assert(before.contains(i));
                let k = before.index_of(i);
                assert(all[k] == i);
            } else {
                assert(all[before.len() as int] == i);
            }
        }
    }
}

/// Every instance stands in the group of exactly one tier: the four groups
/// together are as many as the instances.
pub proof fn lemma_groups_cover(levels: Seq<LodLevel>)
    ensures
        positions_of(levels, LodLevel::Full).len() + positions_of(levels, LodLevel::Reduced).len()
            + positions_of(levels, LodLevel::Billboard).len() + positions_of(
            levels,
            LodLevel::Fade,
        ).len() == levels.len(),
    decreases levels.len(),
{
    if levels.len() > 0 {
        lemma_groups_cover(levels.drop_last());
    }
}

/// Vertex numbers as mathematical integers.
pub open spec fn places(positions: Seq<usize>) -> Seq<int> {
    positions.map_values(|i: usize| i as int)
}

/// The tier of every vegetation instance, in the order of the instances.
pub struct LodTiers {
    levels: Vec<LodLevel>,
}

impl LodTiers {
    /// The tiers, one per instance.
    pub closed spec fn view(&self) -> Seq<LodLevel> {
        self.levels@
    }

    /// `count` instances, all in the full tier, as they are when they are placed.
    pub fn new(count: usize) -> (tiers: LodTiers)
        ensures
            tiers@.len() == count,
            forall|i: int| 0 <= i < count ==> tiers@[i] == LodLevel::Full,
    {
        let mut levels: Vec<LodLevel> = Vec::new();
        let mut i: usize = 0;
        while i < count
            invariant
                i <= count,
                levels@.len() == i,
                forall|j: int| 0 <= j < i ==> levels@[j] == LodLevel::Full,
            decreases count - i,
        {
            levels.push(LodLevel::Full);
            i += 1;
        }
        LodTiers { levels }
    }

    /// Number of instances.
    pub fn len(&self) -> (n: usize)
        ensures
            n == self@.len(),
    {
        self.levels.len()
    }

    /// The tier of instance `i`, or `None` where there is no such instance.
    pub fn level(&self, i: usize) -> (r: Option<LodLevel>)
        ensures
            r == if i < self@.len() {
                Some(self@[i as int])
            } else {
                None
            },
    {
        if i < self.levels.len() {
            Some(self.levels[i])
        } else {
            None
        }
    }

    /// Assigns every instance the tier of its distance from the viewer, where
    /// `distances` holds one distance per instance. No instance comes or goes.
    pub fn update(&mut self, distances: &Vec<Scalar>)
        requires
            distances@.len() == old(self)@.len(),
        ensures
            final(self)@.len() == old(self)@.len(),
            forall|i: int|
                0 <= i < distances@.len() ==> final(self)@[i] == LodLevel::spec_from_distance(
                    distances@[i],
                ),
    {
        let mut levels: Vec<LodLevel> = Vec::new();
        let mut i: usize = 0;
        while i < distances.len()
            invariant
                i <= distances@.len(),
                levels@.len() == i,
                forall|j: int|
                    0 <= j < i ==> levels@[j] == LodLevel::spec_from_distance(distances@[j]),
            decreases distances@.len() - i,
        {
            levels.push(LodLevel::from_distance(distances[i]));
            i += 1;
        }
        self.levels = levels;
    }

    /// The instances that are drawn in the given tier, by their places in the
    /// order of the instances, rising.
    pub fn get_instances_by_lod(&self, lod_level: LodLevel) -> (group: Vec<usize>)
        ensures
            places(group@) == positions_of(self@, lod_level),
    {
        let mut group: Vec<usize> = Vec::new();
        let mut i: usize = 0;
        proof {
            assert(self@.take(0) =~= Seq::<LodLevel>::empty());
            assert(places(group@) =~= positions_of(self@.take(0), lod_level));
        }
        while i < self.levels.len()
            invariant
                i <= self@.len(),
                self@ == self.levels@,
                places(group@) == positions_of(self@.take(i as int), lod_level),
            decreases self@.len() - i,
        {
            let ghost before = places(group@);
            proof {
                assert(self@.take(i + 1).drop_last() =~= self@.take(i as int));
                assert(self@.take(i + 1).last() == self@[i as int]);
            }
            if self.levels[i] == lod_level {
                group.push(i);
                proof {
                    assert(places(group@) =~= before.push(i as int));
                }
            }
            i += 1;
        }
        proof {
            assert(self@.take(i as int) =~= self@);
        }
        group
    }
}

/// The index lists of the grass meshes of the four tiers.
pub struct GrassLodMeshes {
    full: TriangleList,
    reduced: TriangleList,
    billboard: TriangleList,
    fade: TriangleList,
}

impl GrassLodMeshes {
    /// Number of segments of the grass blade of a tier: five in full detail, two
    /// reduced, and a single quad for the billboard and for the fading billboard.
    pub open spec fn segments(level: LodLevel) -> nat {
        match level {
            LodLevel::Full => 5,
            LodLevel::Reduced => 2,
            LodLevel::Billboard => 1,
            LodLevel::Fade => 1,
        }
    }

    /// Number of segments of the grass blade of a tier.
    pub fn segment_count(level: LodLevel) -> (n: usize)
        ensures
            n == Self::segments(level),
    {
        match level {
            LodLevel::Full => 5,
            LodLevel::Reduced => 2,
            LodLevel::Billboard => 1,
            LodLevel::Fade => 1,
        }
    }

    /// The mesh of a tier.
    pub closed spec fn mesh(&self, level: LodLevel) -> TriangleList {
        match level {
            LodLevel::Full => self.full,
            LodLevel::Reduced => self.reduced,
            LodLevel::Billboard => self.billboard,
            LodLevel::Fade => self.fade,
        }
    }

    /// Each tier has the blade of its number of segments: two vertices per rung
    /// and two triangles per segment.
    pub open spec fn wf(&self) -> bool {
        forall|level: LodLevel|
            {
                &&& (#[trigger] self.mesh(level)).vertices() == 2 * (Self::segments(level) + 1)
                &&& as_ints(self.mesh(level)@) == blade_indices(Self::segments(level))
                &&& self.mesh(level).wf()
            }
    }

    /// Builds the four meshes.
    pub fn generate() -> (meshes: GrassLodMeshes)
        ensures
            meshes.wf(),
    {
        GrassLodMeshes {
            full: TriangleList::blade(Self::segment_count(LodLevel::Full)),
            reduced: TriangleList::blade(Self::segment_count(LodLevel::Reduced)),
            billboard: TriangleList::blade(Self::segment_count(LodLevel::Billboard)),
            fade: TriangleList::blade(Self::segment_count(LodLevel::Fade)),
        }
    }

    /// The mesh of a tier.
    pub fn get_mesh(&self, lod_level: LodLevel) -> (mesh: &TriangleList)
        ensures
            *mesh == self.mesh(lod_level),
    {
        match lod_level {
            LodLevel::Full => &self.full,
            LodLevel::Reduced => &self.reduced,
            LodLevel::Billboard => &self.billboard,
            LodLevel::Fade => &self.fade,
        }
    }

    /// The nearer a tier, the more vertices its mesh has: 12, 6, 4 and 4.
    pub proof fn lemma_detail_decreases(&self, near: LodLevel, far: LodLevel)
        requires
            self.wf(),
            near.spec_index() <= far.spec_index(),
        ensures
            self.mesh(near).vertices() >= self.mesh(far).vertices(),
            self.mesh(LodLevel::Full).vertices() == 12,
            self.mesh(LodLevel::Reduced).vertices() == 6,
            self.mesh(LodLevel::Billboard).vertices() == 4,
            self.mesh(LodLevel::Fade).vertices() == 4,
    {
    }
}

} // verus!
