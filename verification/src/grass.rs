//! Grass: which candidates grow, which texture they wear, and in which tier
//! each blade is drawn.

use rand::Rng;
use rand_chacha::ChaCha8Rng;
use vstd::prelude::*;
use crate::lod::{positions_of, places, GrassLodMeshes, LodLevel, LodTiers};
use crate::mesh::TriangleList;
use crate::scalar::Scalar;

verus! {

/// Number of grass blade textures to choose from.
pub const TEXTURE_VARIANTS: u32 = 8;

/// Seed of the generator that places the grass: the same grass on every run.
pub const GRASS_SEED: u64 = 42;

/// Width of the density map that the grass grows by, in cells.
pub const DENSITY_WIDTH: u32 = 256;

/// Height of the density map that the grass grows by, in cells.
pub const DENSITY_HEIGHT: u32 = 128;

/// The ChaCha generator with eight rounds. Nothing is known of its state.
#[verifier::external_type_specification]
#[verifier::external_body]
pub struct ExChaCha8Rng(ChaCha8Rng);

/// Draws an integer with `Rng::gen_range` from the half-open range `low..high`.
/// The range must not be empty, or the call panics. The value drawn lies in the
/// range; which one it is depends on the generator's state and is left open.
#[verifier::external_body]
fn gen_range(rng: &mut ChaCha8Rng, low: u32, high: u32) -> (value: u32)
    requires
        low < high,
    ensures
        low <= value < high,
{
    rng.gen_range(low..high)
}

/// Draws the texture of a blade: one of the eight variants, `0` to `7`.
pub fn pick_texture_index(rng: &mut ChaCha8Rng) -> (index: u32)
    ensures
        index < TEXTURE_VARIANTS,
{
    gen_range(rng, 0, TEXTURE_VARIANTS)
}

/// A candidate grows where a uniform draw falls below the density at its place,
/// so with the density as its chance.
pub fn accepts(draw: Scalar, density: Scalar) -> (grows: bool)
    ensures
        grows == draw.spec_lt(density),
{
    draw.lt(density)
}

/// The level-of-detail state of the grass: the meshes of the four tiers and the
/// tier of every blade.
pub struct GrassSystem {
    meshes: GrassLodMeshes,
    tiers: LodTiers,
}

impl GrassSystem {
    /// The tier of every blade, in the order of the blades.
    pub closed spec fn view(&self) -> Seq<LodLevel> {
        self.tiers@
    }

    /// The meshes of the four tiers.
    pub closed spec fn meshes(&self) -> GrassLodMeshes {
        self.meshes
    }

    /// The meshes are those of the four tiers.
    pub open spec fn wf(&self) -> bool {
        self.meshes().wf()
    }

    /// The state of `instance_count` blades that were just placed: all in the
    /// full tier.
    pub fn new(instance_count: usize) -> (grass: GrassSystem)
        ensures
            grass@.len() == instance_count,
            forall|i: int| 0 <= i < instance_count ==> grass@[i] == LodLevel::Full,
            grass.wf(),
    {
        GrassSystem { meshes: GrassLodMeshes::generate(), tiers: LodTiers::new(instance_count) }
    }

    /// Assigns every blade the tier of its distance from the viewer, where
    /// `distances` holds one distance per blade. No blade comes or goes, and the
    /// meshes stay what they are.
    pub fn update(&mut self, distances: &Vec<Scalar>)
        requires
            distances@.len() == old(self)@.len(),
        ensures
            final(self)@.len() == old(self)@.len(),
            forall|i: int|
                0 <= i < distances@.len() ==> final(self)@[i] == LodLevel::spec_from_distance(
                    distances@[i],
                ),
            final(self).meshes() == old(self).meshes(),
    {
        self.tiers.update(distances);
    }

    /// The blades that are drawn in the given tier, by their places in the
    /// order of the blades, rising.
    pub fn get_instances_by_lod(&self, lod_level: LodLevel) -> (group: Vec<usize>)
        ensures
            places(group@) == positions_of(self@, lod_level),
    {
        self.tiers.get_instances_by_lod(lod_level)
    }

    /// The mesh in which the blades of a tier are drawn.
    pub fn get_lod_mesh(&self, lod_level: LodLevel) -> (mesh: &TriangleList)
        ensures
            *mesh == self.meshes().mesh(lod_level),
    {
        self.meshes.get_mesh(lod_level)
    }
}

} // verus!
