//! Verified world model of a spherical game world.
//!
//! The crate holds the combinatorial side of the world: the topology of the
//! geodesic terrain mesh, the index buffers of the vegetation and road meshes,
//! the lattice hash and grid of the density map, the tiers of the level-of-detail
//! scheme, the budget of the rejection sampler that places the trees, and the
//! limits of the cameras. Numbers with a fraction come in and go out as bit
//! patterns (see [`scalar`]): the crate orders them and holds them between
//! bounds, their arithmetic is the caller's.

pub mod camera;
pub mod density;
pub mod frame;
pub mod grass;
pub mod icosphere;
pub mod locomotion;
pub mod lod;
pub mod matrix;
pub mod mesh;
pub mod road;
pub mod scalar;
pub mod surface;
pub mod texture;
pub mod timer;
pub mod tree;
pub mod world;

pub use density::DensityMap;
pub use grass::GrassSystem;
pub use icosphere::Icosphere;
pub use lod::{GrassLodMeshes, LodLevel, LodTiers};
pub use mesh::{DrawArguments, TriangleList};
pub use scalar::{Scalar, Vec3};
pub use texture::{GrassTextureGenerator, TextureFormat};
pub use timer::Timer;
pub use tree::TreePlacement;
pub use world::{SphericalWorld, WorldError};
