use game_engine::icosphere::Icosphere;
use game_engine::scalar::Scalar;
use game_engine::world::SphericalWorld;

fn scalar(x: f32) -> Scalar {
    Scalar::from_bits(x.to_bits())
}

#[test]
fn test_icosphere_generation() {
    let world = SphericalWorld::new(scalar(1.0), 0).unwrap();
    let mesh = world.generate_mesh().unwrap();

    // Icosahedron has 12 vertices
    assert_eq!(mesh.vertex_count(), 12);
    // Icosahedron has 20 faces * 3 indices per face
    assert_eq!(mesh.indices().len(), 60);
}

#[test]
fn test_subdivision() {
    let world = SphericalWorld::new(scalar(1.0), 1).unwrap();
    let mesh = world.generate_mesh().unwrap();

    // After 1 subdivision, each triangle becomes 4
    // So 20 * 4 = 80 triangles
    assert_eq!(mesh.indices().len(), 80 * 3);
}

#[test]
fn vertex_counts_follow_euler() {
    let mut expected = 12usize;
    let mut edges = 30usize;
    for level in 0..=6u32 {
        let sphere = Icosphere::generate(level).unwrap();
        assert_eq!(sphere.vertex_count(), expected);
        assert_eq!(sphere.indices().len(), 60 * 4usize.pow(level));
        expected += edges;
        edges *= 4;
    }
    assert_eq!(Icosphere::generate(6).unwrap().vertex_count(), 40962);
}

#[test]
fn level_seven_does_not_fit_sixteen_bit_indices() {
    assert!(Icosphere::generate(7).is_none());
    assert!(Icosphere::generate(30).is_none());
    let finest = Icosphere::generate(6).unwrap();
    assert_eq!(finest.level(), 6);
    assert!(finest.subdivide().is_none());
}

#[test]
fn subdividing_step_by_step_is_generating() {
    let mut sphere = Icosphere::base();
    for level in 1..=3u32 {
        sphere = sphere.subdivide().unwrap();
        assert_eq!(sphere.level(), level);
        let whole = Icosphere::generate(level).unwrap();
        assert_eq!(sphere.indices(), whole.indices());
        assert_eq!(sphere.parents(), whole.parents());
        assert_eq!(sphere.vertex_count(), 10 * 4usize.pow(level) + 2);
    }
}

fn midpoint_on_sphere(a: [f32; 3], b: [f32; 3]) -> [f32; 3] {
    let m = [(a[0] + b[0]) * 0.5, (a[1] + b[1]) * 0.5, (a[2] + b[2]) * 0.5];
    normalize(m)
}

fn normalize(v: [f32; 3]) -> [f32; 3] {
    let len = (v[0] * v[0] + v[1] * v[1] + v[2] * v[2]).sqrt();
    if len > 0.0 {
        [v[0] / len, v[1] / len, v[2] / len]
    } else {
        v
    }
}

fn positions(sphere: &Icosphere, radius: f32, center: [f32; 3]) -> Vec<[f32; 3]> {
    let t = (1.0 + 5.0_f32.sqrt()) / 2.0;
    let mut unit: Vec<[f32; 3]> = vec![
        [-1.0, t, 0.0],
        [1.0, t, 0.0],
        [-1.0, -t, 0.0],
        [1.0, -t, 0.0],
        [0.0, -1.0, t],
        [0.0, 1.0, t],
        [0.0, -1.0, -t],
        [0.0, 1.0, -t],
        [t, 0.0, -1.0],
        [t, 0.0, 1.0],
        [-t, 0.0, -1.0],
        [-t, 0.0, 1.0],
    ]
    .into_iter()
    .map(normalize)
    .collect();
    for &(a, b) in sphere.parents() {
        let m = midpoint_on_sphere(unit[a as usize], unit[b as usize]);
        unit.push(m);
    }
    unit.iter()
        .map(|v| {
            [
                v[0] * radius + center[0],
                v[1] * radius + center[1],
                v[2] * radius + center[2],
            ]
        })
        .collect()
}

#[test]
fn generated_vertices_lie_on_the_sphere() {
    for level in 0..=4u32 {
        let sphere = Icosphere::generate(level).unwrap();
        let center = [0.5f32, -2.0, 3.0];
        for radius in [1.0f32, 50.0] {
            let placed = positions(&sphere, radius, center);
            assert_eq!(placed.len(), sphere.vertex_count());
            for p in &placed {
                let d = [(p[0] - center[0]), (p[1] - center[1]), (p[2] - center[2])];
                let len = (d[0] * d[0] + d[1] * d[1] + d[2] * d[2]).sqrt();
                assert!((len - radius).abs() < 1.0e-4 * radius.max(1.0));
            }
        }
    }
}

#[test]
fn every_index_names_a_vertex_and_parents_come_first() {
    for level in 0..=5u32 {
        let sphere = Icosphere::generate(level).unwrap();
        let n = sphere.vertex_count();
        assert!(sphere.indices().iter().all(|&i| (i as usize) < n));
        for (k, &(a, b)) in sphere.parents().iter().enumerate() {
            assert!(a < b);
            assert!((b as usize) < 12 + k);
        }
        for tri in sphere.indices().chunks(3) {
            assert!(tri[0] != tri[1] && tri[1] != tri[2] && tri[2] != tri[0]);
        }
    }
}

#[test]
fn every_edge_has_one_midpoint() {
    let sphere = Icosphere::generate(3).unwrap();
    let mut seen = std::collections::HashSet::new();
    for &pair in sphere.parents() {
        assert!(seen.insert(pair), "two vertices on one edge");
    }
    // every edge of the finished mesh is shared by exactly two triangles
    let mut uses = std::collections::HashMap::new();
    for tri in sphere.indices().chunks(3) {
        for k in 0..3 {
            let (a, b) = (tri[k], tri[(k + 1) % 3]);
            *uses.entry((a.min(b), a.max(b))).or_insert(0usize) += 1;
        }
    }
    assert!(uses.values().all(|&n| n == 2));
    assert_eq!(uses.len(), 30 * 4usize.pow(3));
}

#[test]
fn first_subdivision_in_detail() {
    let base = Icosphere::base();
    assert_eq!(&base.indices()[..6], &[0, 11, 5, 0, 5, 1]);
    let next = base.subdivide().unwrap();
    // the first triangle 0 11 5 gets the midpoints 12, 13, 14
    assert_eq!(&next.parents()[..3], &[(0, 11), (5, 11), (0, 5)]);
    assert_eq!(
        &next.indices()[..12],
        &[0, 12, 14, 11, 13, 12, 5, 14, 13, 12, 13, 14]
    );
    // the second triangle 0 5 1 shares the edge 0 5 and its midpoint 14
    assert_eq!(&next.parents()[3..5], &[(1, 5), (0, 1)]);
    assert_eq!(
        &next.indices()[12..24],
        &[0, 14, 16, 5, 15, 14, 1, 16, 15, 14, 15, 16]
    );
    let list = next.into_triangles();
    assert_eq!(list.vertex_count(), 42);
    assert_eq!(list.triangle_count(), 80);
}
