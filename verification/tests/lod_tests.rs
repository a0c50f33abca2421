use game_engine::grass::GrassSystem;
use game_engine::lod::{
    GrassLodMeshes, LodLevel, LodTiers, BILLBOARD_END_BITS, FADE_END_BITS, FULL_END_BITS,
    REDUCED_END_BITS,
};
use game_engine::scalar::Scalar;

fn s(x: f32) -> Scalar {
    Scalar::from_bits(x.to_bits())
}

fn f(x: Scalar) -> f32 {
    f32::from_bits(x.to_bits())
}

fn tier_by_hand(distance: f32) -> LodLevel {
    match distance {
        d if d < 10.0 => LodLevel::Full,
        d if d < 30.0 => LodLevel::Reduced,
        d if d < 50.0 => LodLevel::Billboard,
        _ => LodLevel::Fade,
    }
}

/// The fade factor as the caller computes it: the place of the distance in the
/// tier's range, held between 0 and 1 by the library.
fn fade_factor(level: LodLevel, distance: f32) -> f32 {
    let start = f(level.start_distance());
    let range = f(level.max_distance()) - start;
    let factor = (distance - start) / range;
    f(level.fade_factor(s(distance), s(factor)))
}

#[test]
fn thresholds_are_the_bits_of_the_distances() {
    assert_eq!(FULL_END_BITS, 10.0f32.to_bits());
    assert_eq!(REDUCED_END_BITS, 30.0f32.to_bits());
    assert_eq!(BILLBOARD_END_BITS, 50.0f32.to_bits());
    assert_eq!(FADE_END_BITS, 60.0f32.to_bits());
}

#[test]
fn from_distance_examples() {
    assert_eq!(LodLevel::from_distance(s(5.0)), LodLevel::Full);
    assert_eq!(LodLevel::from_distance(s(25.0)), LodLevel::Reduced);
    assert_eq!(LodLevel::from_distance(s(45.0)), LodLevel::Billboard);
    assert_eq!(LodLevel::from_distance(s(55.0)), LodLevel::Fade);
    assert_eq!(fade_factor(LodLevel::Fade, 55.0), 0.5);
}

#[test]
fn from_distance_at_the_borders() {
    assert_eq!(LodLevel::from_distance(s(0.0)), LodLevel::Full);
    assert_eq!(LodLevel::from_distance(s(9.999999)), LodLevel::Full);
    assert_eq!(LodLevel::from_distance(s(10.0)), LodLevel::Reduced);
    assert_eq!(LodLevel::from_distance(s(29.999998)), LodLevel::Reduced);
    assert_eq!(LodLevel::from_distance(s(30.0)), LodLevel::Billboard);
    assert_eq!(LodLevel::from_distance(s(49.999996)), LodLevel::Billboard);
    assert_eq!(LodLevel::from_distance(s(50.0)), LodLevel::Fade);
    assert_eq!(LodLevel::from_distance(s(60.0)), LodLevel::Fade);
    assert_eq!(LodLevel::from_distance(s(1.0e9)), LodLevel::Fade);
    assert_eq!(LodLevel::from_distance(s(f32::INFINITY)), LodLevel::Fade);
    assert_eq!(LodLevel::from_distance(s(f32::NAN)), LodLevel::Fade);
    assert_eq!(LodLevel::from_distance(s(-1.0)), LodLevel::Full);
}

#[test]
fn from_distance_agrees_with_float_comparison_and_is_monotonic() {
    let mut previous = LodLevel::Full.index();
    let mut d = 0.0f32;
    while d < 80.0 {
        let level = LodLevel::from_distance(s(d));
        assert_eq!(level, tier_by_hand(d));
        assert!(level.index() >= previous);
        previous = level.index();
        let start = f(level.start_distance());
        assert!(start <= d);
        if level != LodLevel::Fade {
            assert!(d < f(level.max_distance()));
        }
        let factor = fade_factor(level, d);
        assert!((0.0..=1.0).contains(&factor));
        d += 0.0625;
    }
}

#[test]
fn max_and_start_distances() {
    assert_eq!(f(LodLevel::Full.max_distance()), 10.0);
    assert_eq!(f(LodLevel::Reduced.max_distance()), 30.0);
    assert_eq!(f(LodLevel::Billboard.max_distance()), 50.0);
    assert_eq!(f(LodLevel::Fade.max_distance()), 60.0);
    assert_eq!(f(LodLevel::Full.start_distance()), 0.0);
    assert_eq!(f(LodLevel::Reduced.start_distance()), 10.0);
    assert_eq!(f(LodLevel::Billboard.start_distance()), 30.0);
    assert_eq!(f(LodLevel::Fade.start_distance()), 50.0);
    assert_eq!(LodLevel::Full.index(), 0);
    assert_eq!(LodLevel::Reduced.index(), 1);
    assert_eq!(LodLevel::Billboard.index(), 2);
    assert_eq!(LodLevel::Fade.index(), 3);
}

#[test]
fn fade_factor_values() {
    assert_eq!(fade_factor(LodLevel::Full, 5.0), 0.5);
    assert_eq!(fade_factor(LodLevel::Reduced, 15.0), 0.25);
    assert_eq!(fade_factor(LodLevel::Billboard, 50.0), 1.0);
    assert_eq!(fade_factor(LodLevel::Fade, 50.0), 0.0);
    assert_eq!(fade_factor(LodLevel::Fade, 60.0), 1.0);
    assert_eq!(fade_factor(LodLevel::Fade, 1000.0), 1.0);
    assert_eq!(fade_factor(LodLevel::Fade, 0.0), 0.0);
}

#[test]
fn fade_factor_is_settled_by_the_distance_outside_the_range() {
    for level in [LodLevel::Full, LodLevel::Reduced, LodLevel::Billboard, LodLevel::Fade] {
        let start = f(level.start_distance());
        let end = f(level.max_distance());
        for progress in [0.5f32, -3.0, 7.0, f32::NAN, f32::INFINITY] {
            assert_eq!(f(level.fade_factor(s(start), s(progress))), 0.0);
            assert_eq!(f(level.fade_factor(s(start - 1.0), s(progress))), 0.0);
            assert_eq!(f(level.fade_factor(s(end), s(progress))), 1.0);
            assert_eq!(f(level.fade_factor(s(end + 100.0), s(progress))), 1.0);
            assert_eq!(f(level.fade_factor(s(f32::INFINITY), s(progress))), 1.0);
        }
        let inside = (start + end) / 2.0;
        assert_eq!(f(level.fade_factor(s(inside), s(0.5))), 0.5);
        assert_eq!(f(level.fade_factor(s(inside), s(1.5))), 1.0);
        assert_eq!(f(level.fade_factor(s(inside), s(-0.5))), 0.0);
        assert!(f(level.fade_factor(s(inside), s(f32::NAN))).is_nan());
        assert_eq!(f(level.fade_factor(s(f32::NAN), s(0.25))), 0.25);
    }
    // the same progress is another factor in another tier
    assert_eq!(f(LodLevel::Fade.fade_factor(s(55.0), s(0.5))), 0.5);
    assert_eq!(f(LodLevel::Billboard.fade_factor(s(55.0), s(0.5))), 1.0);
    assert_eq!(f(LodLevel::Full.fade_factor(s(55.0), s(0.5))), 1.0);
    assert_eq!(GrassLodMeshes::segment_count(LodLevel::Full), 5);
    assert_eq!(GrassLodMeshes::segment_count(LodLevel::Reduced), 2);
    assert_eq!(GrassLodMeshes::segment_count(LodLevel::Billboard), 1);
    assert_eq!(GrassLodMeshes::segment_count(LodLevel::Fade), 1);
}

#[test]
fn fade_factor_agrees_with_the_clamped_quotient() {
    for level in [LodLevel::Full, LodLevel::Reduced, LodLevel::Billboard, LodLevel::Fade] {
        let start = f(level.start_distance());
        let range = f(level.max_distance()) - start;
        let mut d = 0.0f32;
        while d < 90.0 {
            let by_hand = ((d - start) / range).clamp(0.0, 1.0);
            assert_eq!(fade_factor(level, d), by_hand, "{level:?} at {d}");
            d += 0.0371;
        }
    }
}

#[test]
fn tiers_start_full_and_follow_the_distances() {
    let mut tiers = LodTiers::new(7);
    assert_eq!(tiers.len(), 7);
    for i in 0..7 {
        assert_eq!(tiers.level(i), Some(LodLevel::Full));
    }
    assert_eq!(tiers.level(7), None);
    let distances = vec![s(55.0), s(5.0), s(25.0), s(45.0), s(7.0), s(100.0), s(10.0)];
    tiers.update(&distances);
    assert_eq!(tiers.len(), 7);
    assert_eq!(tiers.level(0), Some(LodLevel::Fade));
    assert_eq!(tiers.level(1), Some(LodLevel::Full));
    assert_eq!(tiers.level(2), Some(LodLevel::Reduced));
    assert_eq!(tiers.level(3), Some(LodLevel::Billboard));
    assert_eq!(tiers.level(4), Some(LodLevel::Full));
    assert_eq!(tiers.level(5), Some(LodLevel::Fade));
    assert_eq!(tiers.level(6), Some(LodLevel::Reduced));
    assert_eq!(tiers.get_instances_by_lod(LodLevel::Full), vec![1, 4]);
    assert_eq!(tiers.get_instances_by_lod(LodLevel::Reduced), vec![2, 6]);
    assert_eq!(tiers.get_instances_by_lod(LodLevel::Billboard), vec![3]);
    assert_eq!(tiers.get_instances_by_lod(LodLevel::Fade), vec![0, 5]);
}

#[test]
fn groups_cover_every_instance_once() {
    let mut distances = Vec::new();
    let mut d = 0.0f32;
    while d < 75.0 {
        distances.push(s(d));
        d += 0.37;
    }
    let mut grass = GrassSystem::new(distances.len());
    assert_eq!(grass.get_instances_by_lod(LodLevel::Full).len(), distances.len());
    assert!(grass.get_instances_by_lod(LodLevel::Fade).is_empty());
    grass.update(&distances);
    let mut seen = vec![0usize; distances.len()];
    for level in [LodLevel::Full, LodLevel::Reduced, LodLevel::Billboard, LodLevel::Fade] {
        let group = grass.get_instances_by_lod(level);
        assert!(!group.is_empty());
        for w in group.windows(2) {
            assert!(w[0] < w[1]);
        }
        for &i in &group {
            assert_eq!(tier_by_hand(f(distances[i])), level);
            seen[i] += 1;
        }
    }
    assert!(seen.iter().all(|&n| n == 1));
}

#[test]
fn lod_meshes_lose_detail_with_distance() {
    let meshes = GrassLodMeshes::generate();
    let full = meshes.get_mesh(LodLevel::Full);
    assert_eq!(full.vertex_count(), 12);
    assert_eq!(full.indices().len(), 30);
    let reduced = meshes.get_mesh(LodLevel::Reduced);
    assert_eq!(reduced.vertex_count(), 6);
    assert_eq!(reduced.indices().len(), 12);
    let billboard = meshes.get_mesh(LodLevel::Billboard);
    assert_eq!(billboard.vertex_count(), 4);
    assert_eq!(billboard.indices(), &vec![0, 1, 2, 1, 3, 2]);
    let fade = meshes.get_mesh(LodLevel::Fade);
    assert_eq!(fade.vertex_count(), 4);
    assert_eq!(fade.indices(), billboard.indices());
    let grass = GrassSystem::new(0);
    assert_eq!(grass.get_lod_mesh(LodLevel::Full).indices(), full.indices());
    assert_eq!(
        &full.indices()[..12],
        &[0, 1, 2, 1, 3, 2, 2, 3, 4, 3, 5, 4]
    );
}
