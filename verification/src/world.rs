//! The planet: its size, its place and the fineness of its terrain mesh.

use vstd::prelude::*;
use crate::icosphere::{icosphere, pow4, Icosphere};
use crate::scalar::{Scalar, Vec3, ZERO_BITS};

verus! {

/// Why a world cannot be made or meshed.
#[derive(Debug, Clone, Copy, PartialEq, Eq, Structural)]
pub enum WorldError {
    /// The radius is not a number above zero.
    InvalidRadius,
    /// The mesh would have more vertices than 16-bit indices can name.
    TooManyVertices,
}

/// A spherical world.
#[derive(Debug, Clone, Copy, PartialEq, Eq, Structural)]
pub struct SphericalWorld {
    pub radius: Scalar,
    pub subdivision_level: u32,
    pub center: Vec3,
}

impl SphericalWorld {
    /// A radius is valid when it is a number above zero.
    pub open spec fn valid_radius(radius: Scalar) -> bool {
        Scalar::of_bits(ZERO_BITS).spec_lt(radius)
    }

    /// Accepts the radius of a planet, for whatever is generated on it.
    ///
    /// Fails with `InvalidRadius` exactly when the radius is zero, negative or a NaN.
    pub fn check_radius(radius: Scalar) -> (r: Result<(), WorldError>)
        ensures
            Self::valid_radius(radius) ==> r == Ok::<(), WorldError>(()),
            !Self::valid_radius(radius) ==> r == Err::<(), WorldError>(WorldError::InvalidRadius),
    {
        if Scalar::zero().lt(radius) {
            Ok(())
        } else {
            Err(WorldError::InvalidRadius)
        }
    }

    /// A world of the given radius around the origin.
    ///
    /// Fails with `InvalidRadius` exactly when the radius is zero, negative or a NaN.
    pub fn new(radius: Scalar, subdivision_level: u32) -> (r: Result<SphericalWorld, WorldError>)
        ensures
            Self::valid_radius(radius) ==> r == Ok::<SphericalWorld, WorldError>(
                SphericalWorld {
                    radius,
                    subdivision_level,
                    center: Vec3 {
                        x: Scalar::of_bits(ZERO_BITS),
                        y: Scalar::of_bits(ZERO_BITS),
                        z: Scalar::of_bits(ZERO_BITS),
                    },
                },
            ),
            !Self::valid_radius(radius) ==> r == Err::<SphericalWorld, WorldError>(
                WorldError::InvalidRadius,
            ),
    {
        match Self::check_radius(radius) {
            Ok(()) => Ok(SphericalWorld { radius, subdivision_level, center: Vec3::zero() }),
            Err(e) => Err(e),
        }
    }

    /// The topology of the terrain mesh: the icosahedron, subdivided
    /// `subdivision_level` times, with `10 * 4^level + 2` vertices and
    /// `20 * 4^level` triangles.
    ///
    /// Fails with `InvalidRadius` exactly when the radius of the world is zero,
    /// negative or a NaN, whatever the level. A world of a valid radius fails
    /// with `TooManyVertices` exactly from the seventh level on, where the sphere
    /// has more vertices than 16-bit indices can name.
    pub fn generate_mesh(&self) -> (r: Result<Icosphere, WorldError>)
        ensures
            !Self::valid_radius(self.radius) ==> r == Err::<Icosphere, WorldError>(
                WorldError::InvalidRadius,
            ),
            Self::valid_radius(self.radius) ==> (r is Ok <==> self.subdivision_level <= 6),
            Self::valid_radius(self.radius) && self.subdivision_level > 6 ==> r == Err::<
                Icosphere,
                WorldError,
            >(WorldError::TooManyVertices),
            r matches Ok(sphere) ==> sphere@ == icosphere(self.subdivision_level as nat)
                && sphere.spec_level() == self.subdivision_level && sphere.inv()
                && sphere@.vertex_count() == 10 * pow4(
                self.subdivision_level as nat,
            ) + 2 && sphere@.indices.len() == 60 * pow4(self.subdivision_level as nat),
    {
        match Self::check_radius(self.radius) {
            Ok(()) => {},
            Err(e) => {
                return Err(e);
            },
        }
        match Icosphere::generate(self.subdivision_level) {
            Some(sphere) => Ok(sphere),
            None => Err(WorldError::TooManyVertices),
        }
    }
}

} // verus!
