use game_engine::scalar::{Scalar, Vec3};
use game_engine::world::{SphericalWorld, WorldError};

fn s(x: f32) -> Scalar {
    Scalar::from_bits(x.to_bits())
}

#[test]
fn test_spherical_world_creation() {
    let world = SphericalWorld::new(s(50.0), 2).unwrap();
    assert_eq!(f32::from_bits(world.radius.to_bits()), 50.0);
    assert_eq!(world.subdivision_level, 2);
    assert_eq!(world.center, Vec3::zero());
}

#[test]
fn radius_must_be_positive() {
    assert_eq!(SphericalWorld::new(s(0.0), 1), Err(WorldError::InvalidRadius));
    assert_eq!(SphericalWorld::new(s(-0.0), 1), Err(WorldError::InvalidRadius));
    assert_eq!(SphericalWorld::new(s(-1.0), 1), Err(WorldError::InvalidRadius));
    assert_eq!(SphericalWorld::new(s(f32::NAN), 1), Err(WorldError::InvalidRadius));
    assert_eq!(
        SphericalWorld::new(s(f32::NEG_INFINITY), 1),
        Err(WorldError::InvalidRadius)
    );
    assert!(SphericalWorld::new(s(f32::MIN_POSITIVE), 1).is_ok());
    assert!(SphericalWorld::new(s(1.0e-42), 1).is_ok());
    assert_eq!(SphericalWorld::check_radius(s(25.0)), Ok(()));
    assert_eq!(SphericalWorld::check_radius(s(0.0)), Err(WorldError::InvalidRadius));
    assert_eq!(SphericalWorld::check_radius(s(-25.0)), Err(WorldError::InvalidRadius));
}

#[test]
fn world_generates_its_mesh() {
    let world = SphericalWorld::new(s(1.0), 0).unwrap();
    let mesh = world.generate_mesh().unwrap();
    assert_eq!(mesh.vertex_count(), 12);
    assert_eq!(mesh.indices().len(), 60);
    let world = SphericalWorld::new(s(1.0), 1).unwrap();
    let mesh = world.generate_mesh().unwrap();
    assert_eq!(mesh.indices().len(), 80 * 3);
    assert_eq!(mesh.vertex_count(), 42);
}

#[test]
fn too_fine_a_mesh_is_refused() {
    let world = SphericalWorld::new(s(1.0), 7).unwrap();
    assert!(matches!(world.generate_mesh(), Err(WorldError::TooManyVertices)));
    let world = SphericalWorld::new(s(1.0), 6).unwrap();
    assert!(world.generate_mesh().is_ok());
}

#[test]
fn a_world_of_no_valid_radius_is_not_meshed() {
    for radius in [0.0f32, -0.0, -1.0, f32::NAN, f32::NEG_INFINITY] {
        for level in [0u32, 1, 6, 7] {
            let world = SphericalWorld {
                radius: s(radius),
                subdivision_level: level,
                center: Vec3::zero(),
            };
            assert!(matches!(world.generate_mesh(), Err(WorldError::InvalidRadius)));
        }
    }
    let world = SphericalWorld { radius: s(0.5), subdivision_level: 1, center: Vec3::zero() };
    assert_eq!(world.generate_mesh().unwrap().vertex_count(), 42);
}
