use game_engine::mesh::DrawArguments;
use game_engine::texture::{GrassTextureGenerator, TextureFormat, TEXTURE_SEED};
use game_engine::timer::Timer;
use std::time::{Duration, Instant};

#[test]
fn bytes_per_pixel_is_four() {
    assert_eq!(TextureFormat::Rgba8.bytes_per_pixel(), 4);
    assert_eq!(TextureFormat::Bgra8.bytes_per_pixel(), 4);
}

#[test]
fn generator_keeps_its_sizes() {
    let generator = GrassTextureGenerator::new(64, 32, 4);
    assert_eq!(generator.width(), 64);
    assert_eq!(generator.height(), 32);
    assert_eq!(generator.variations(), 4);
    assert_eq!(GrassTextureGenerator::format(), TextureFormat::Rgba8);
    assert_eq!(TEXTURE_SEED, 42);
}

#[test]
fn texture_array_length() {
    let generator = GrassTextureGenerator::new(64, 64, 4);
    assert_eq!(generator.array_len(), Some(64 * 64 * 4 * 4));
    assert_eq!(
        generator.array_len().unwrap(),
        64 * 64 * GrassTextureGenerator::format().bytes_per_pixel() * 4
    );
    assert_eq!(GrassTextureGenerator::new(0, 64, 4).array_len(), Some(0));
    assert_eq!(GrassTextureGenerator::new(70000, 70000, 0).array_len(), Some(0));
    assert_eq!(GrassTextureGenerator::new(70000, 70000, 1).array_len(), None);
    assert_eq!(GrassTextureGenerator::new(1 << 15, 1 << 15, 1).array_len(), None);
    assert_eq!(
        GrassTextureGenerator::new(1 << 15, 1 << 14, 1).array_len(),
        Some(1usize << 31)
    );
    assert_eq!(GrassTextureGenerator::new(1 << 15, 1 << 14, 2).array_len(), None);
    assert_eq!(GrassTextureGenerator::new(65535, 16385, 1).array_len(), None);
    assert_eq!(
        GrassTextureGenerator::new(65535, 16383, 1).array_len(),
        Some(65535 * 16383 * 4)
    );
}

#[test]
fn base_colors_take_turns() {
    assert_eq!(GrassTextureGenerator::base_color(0), (76, 153, 51));
    assert_eq!(GrassTextureGenerator::base_color(1), (102, 153, 51));
    assert_eq!(GrassTextureGenerator::base_color(2), (51, 153, 76));
    assert_eq!(GrassTextureGenerator::base_color(3), (89, 140, 64));
    assert_eq!(GrassTextureGenerator::base_color(4), (115, 161, 82));
    assert_eq!(GrassTextureGenerator::base_color(5), (64, 128, 48));
    assert_eq!(GrassTextureGenerator::base_color(6), (96, 156, 72));
    assert_eq!(GrassTextureGenerator::base_color(7), (83, 145, 58));
    assert_eq!(GrassTextureGenerator::base_color(8), (76, 153, 51));
    assert_eq!(GrassTextureGenerator::base_color(15), (83, 145, 58));
}

#[test]
fn veins_and_wear() {
    let veins: Vec<bool> = (0..8).map(GrassTextureGenerator::has_vein).collect();
    assert_eq!(veins, vec![false, false, false, false, true, true, true, true]);
    let wear: Vec<bool> = (0..8).map(GrassTextureGenerator::has_wear).collect();
    assert_eq!(wear, vec![false, false, true, false, false, true, false, false]);
}

#[test]
fn draw_arguments_hold_their_fields() {
    let args = DrawArguments {
        index_count: 30,
        instance_count: 1000,
        first_index: 0,
        base_vertex: -2,
        first_instance: 7,
    };
    let copy = args;
    assert_eq!(copy, args);
    assert_eq!(copy.index_count, 30);
    assert_eq!(copy.base_vertex, -2);
}

#[test]
fn timer_measures_time_forward() {
    let mut timer = Timer::new();
    let first = timer.delta();
    let mut spin = 0u64;
    for i in 0..2_000_000u64 {
        spin = spin.wrapping_add(i * i);
    }
    assert_ne!(spin, 1);
    let second = timer.delta();
    let total = timer.elapsed();
    assert!(total >= second);
    assert!(total >= first);
    assert!(total.as_secs() < 10);
    let fresh = Timer::default();
    assert!(fresh.elapsed() <= total + Duration::from_secs(10));
}

#[test]
fn marking_a_reading_measures_from_the_reading_before() {
    let before = Instant::now();
    let mut timer = Timer::new();
    let after = Instant::now();
    let first = after + Duration::from_secs(5);
    let elapsed = timer.mark(first);
    assert!(elapsed >= Duration::from_secs(5));
    assert!(elapsed <= first.duration_since(before));
    // the next reading is measured from the one marked, to the nanosecond
    assert_eq!(timer.mark(first + Duration::from_millis(2500)), Duration::from_millis(2500));
    assert_eq!(timer.mark(first + Duration::from_millis(2500)), Duration::ZERO);
    // a reading from before the one marked gives no time at all
    assert_eq!(timer.mark(first), Duration::ZERO);
    // the start has stayed what it was
    assert!(timer.elapsed() <= Instant::now().duration_since(before));
}
