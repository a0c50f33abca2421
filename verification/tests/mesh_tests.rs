use game_engine::mesh::{TriangleList, MAX_VERTICES};
use game_engine::road::{generate_curved_road, generate_road_mesh, ROAD_SEGMENTS};
use game_engine::tree::create_tree_mesh;

fn in_range(list: &TriangleList) -> bool {
    list.indices().len() % 3 == 0
        && list
            .indices()
            .iter()
            .all(|&i| (i as usize) < list.vertex_count())
}

#[test]
fn test_road_creation() {
    let mesh = generate_road_mesh();
    // Check that mesh has vertices and indices
    assert!(mesh.vertex_count() > 0);
    assert!(!mesh.indices().is_empty());
    assert_eq!(mesh.vertex_count(), (ROAD_SEGMENTS + 1) * 2);
    assert_eq!(mesh.indices().len(), ROAD_SEGMENTS * 6);
    assert!(in_range(&mesh));
}

#[test]
fn test_curved_road_generation() {
    let mesh = generate_curved_road(20);
    // Should have (segments + 1) * 2 vertices
    assert_eq!(mesh.vertex_count(), 42);
    // Should have segments * 2 triangles * 3 indices
    assert_eq!(mesh.indices().len(), 120);
    assert!(in_range(&mesh));
}

#[test]
fn test_tree_mesh_creation() {
    let mesh = create_tree_mesh();
    // Check that mesh has vertices and indices
    assert!(mesh.vertex_count() > 0);
    assert!(!mesh.indices().is_empty());
    // Should have trunk + foliage vertices
    assert!(mesh.vertex_count() > 12); // At least trunk vertices
    assert_eq!(mesh.vertex_count(), 21);
    assert!(in_range(&mesh));
}

#[test]
fn road_winding() {
    let mesh = generate_curved_road(2);
    assert_eq!(
        mesh.indices(),
        &vec![0, 2, 1, 1, 2, 3, 2, 4, 3, 3, 4, 5]
    );
    assert_eq!(mesh.triangle_count(), 4);
    assert_eq!(mesh.triangle(1), Some((1, 2, 3)));
    assert_eq!(mesh.triangle(3), Some((3, 4, 5)));
    assert_eq!(mesh.triangle(4), None);
}

#[test]
fn blade_winding() {
    let mesh = TriangleList::blade(2);
    assert_eq!(mesh.vertex_count(), 6);
    assert_eq!(
        mesh.indices(),
        &vec![0, 1, 2, 1, 3, 2, 2, 3, 4, 3, 5, 4]
    );
    let empty = TriangleList::blade(0);
    assert_eq!(empty.vertex_count(), 2);
    assert!(empty.indices().is_empty());
}

#[test]
fn tree_indices_are_trunk_then_foliage() {
    let mesh = create_tree_mesh();
    let indices = mesh.indices().clone();
    assert_eq!(indices.len(), 6 * 6 + 8 * 3);
    // first quad of the trunk
    assert_eq!(&indices[..6], &[0, 2, 1, 1, 2, 3]);
    // the last quad closes onto the first edge
    assert_eq!(&indices[30..36], &[10, 0, 11, 11, 0, 1]);
    // the foliage: tip, next rim vertex, rim vertex
    assert_eq!(&indices[36..39], &[12, 14, 13]);
    assert_eq!(&indices[57..60], &[12, 13, 20]);
    assert_eq!(mesh.into_indices(), indices);
}

#[test]
fn largest_ladder_fits_sixteen_bits() {
    let mesh = TriangleList::ribbon(MAX_VERTICES / 2 - 1);
    assert_eq!(mesh.vertex_count(), MAX_VERTICES);
    assert_eq!(*mesh.indices().iter().max().unwrap(), u16::MAX);
    assert!(in_range(&mesh));
}

#[test]
fn new_checks_the_indices() {
    assert!(TriangleList::new(3, vec![0, 1, 2]).is_some());
    assert!(TriangleList::new(3, vec![0, 1, 3]).is_none());
    assert!(TriangleList::new(3, vec![0, 1]).is_none());
    assert!(TriangleList::new(0, vec![]).is_some());
    assert!(TriangleList::new(MAX_VERTICES + 1, vec![]).is_none());
    assert!(TriangleList::new(MAX_VERTICES, vec![65535, 0, 1]).is_some());
    let list = TriangleList::new(4, vec![0, 1, 2, 1, 3, 2]).unwrap();
    assert_eq!(list.vertex_count(), 4);
    assert_eq!(list.triangle(1), Some((1, 3, 2)));
}
