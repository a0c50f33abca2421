use game_engine::grass::{
    accepts, pick_texture_index, GrassSystem, DENSITY_HEIGHT, DENSITY_WIDTH, GRASS_SEED,
    TEXTURE_VARIANTS,
};
use game_engine::lod::LodLevel;
use game_engine::scalar::Scalar;
use rand::{Rng, SeedableRng};
use rand_chacha::ChaCha8Rng;

fn s(x: f32) -> Scalar {
    Scalar::from_bits(x.to_bits())
}

#[test]
fn texture_index_is_one_of_eight() {
    let mut rng = ChaCha8Rng::seed_from_u64(GRASS_SEED);
    let mut seen = [0usize; 8];
    for _ in 0..4000 {
        let index = pick_texture_index(&mut rng);
        assert!(index < TEXTURE_VARIANTS);
        seen[index as usize] += 1;
    }
    assert!(seen.iter().all(|&n| n > 300));
}

#[test]
fn texture_index_draws_from_the_generator() {
    let mut ours = ChaCha8Rng::seed_from_u64(GRASS_SEED);
    let mut theirs = ChaCha8Rng::seed_from_u64(GRASS_SEED);
    for _ in 0..100 {
        let expected: u32 = theirs.gen_range(0..8);
        assert_eq!(pick_texture_index(&mut ours), expected);
    }
    // the generator has moved on: the next draws agree as well
    assert_eq!(ours.gen::<u64>(), theirs.gen::<u64>());
}

#[test]
fn placement_draws_are_reproducible() {
    let run = || {
        let mut rng = ChaCha8Rng::seed_from_u64(GRASS_SEED);
        let mut taken = Vec::new();
        for _ in 0..500 {
            let draw: f32 = rng.gen();
            if accepts(s(draw), s(0.4)) {
                taken.push((draw.to_bits(), pick_texture_index(&mut rng)));
            }
        }
        taken
    };
    let first = run();
    let second = run();
    assert!(!first.is_empty());
    assert_eq!(first, second);
}

#[test]
fn seed_and_map_size_of_the_grass() {
    assert_eq!(GRASS_SEED, 42);
    assert_eq!((DENSITY_WIDTH, DENSITY_HEIGHT), (256, 128));
}

#[test]
fn a_candidate_grows_with_the_density_as_its_chance() {
    assert!(accepts(s(0.2), s(0.5)));
    assert!(!accepts(s(0.5), s(0.5)));
    assert!(!accepts(s(0.7), s(0.5)));
    assert!(!accepts(s(0.0), s(0.0)));
    assert!(accepts(s(0.999), s(1.0)));
    assert!(!accepts(s(0.2), s(f32::NAN)));
}

#[test]
fn grass_starts_in_full_detail() {
    let mut grass = GrassSystem::new(3);
    assert_eq!(grass.get_instances_by_lod(LodLevel::Full), vec![0, 1, 2]);
    grass.update(&vec![s(12.0), s(3.0), s(70.0)]);
    assert_eq!(grass.get_instances_by_lod(LodLevel::Full), vec![1]);
    assert_eq!(grass.get_instances_by_lod(LodLevel::Reduced), vec![0]);
    assert_eq!(grass.get_instances_by_lod(LodLevel::Billboard), Vec::<usize>::new());
    assert_eq!(grass.get_instances_by_lod(LodLevel::Fade), vec![2]);
    assert_eq!(grass.get_lod_mesh(LodLevel::Reduced).vertex_count(), 6);
}
