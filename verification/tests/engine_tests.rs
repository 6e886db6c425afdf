//! Tests for the animation engine: construction, ticking, rendering,
//! resizing, the noise field, and end-to-end determinism.

use voronoi_hero::engine::DrawCmd;
use voronoi_hero::engine::VoronoiHero;
use voronoi_hero::noise::SimplexNoise;

#[test]
fn test_noise() {
    let noise = SimplexNoise::new(42);
    // (0.5, 0.5) in noise-domain fixed point, one being 4096.
    let val = noise.noise2d(2048, 2048);
    assert!(val >= -4096 && val <= 4096);
}

#[test]
fn noise_is_pure_and_bounded_on_a_grid() {
    let noise = SimplexNoise::new(7);
    for xi in 0..40u64 {
        for yi in 0..40u64 {
            let x = xi * 731;
            let y = yi * 977;
            let a = noise.noise2d(x, y);
            let b = noise.noise2d(x, y);
            assert_eq!(a, b);
            assert!(a >= -4096 && a <= 4096);
        }
    }
}

#[test]
fn noise_tables_differ_across_seeds_but_not_across_instances() {
    let a = SimplexNoise::new(42);
    let b = SimplexNoise::new(42);
    let c = SimplexNoise::new(43);
    assert_eq!(a.perm, b.perm);
    assert_ne!(a.perm, c.perm);
    assert_eq!(a.perm.len(), 512);
    for i in 0..256 {
        assert_eq!(a.perm[i], a.perm[i + 256]);
    }
}

#[test]
fn new_places_ten_seeds_on_the_spiral_inside_the_radius() {
    let engine = VoronoiHero::new(500, 500, 10);
    assert_eq!(engine.seeds.len(), 10);
    // Center (250, 250) pixels, radius 225 pixels, in 16-unit fixed point.
    for s in &engine.seeds {
        let dx = s.x - 250 * 16;
        let dy = s.y - 250 * 16;
        assert!(dx * dx + dy * dy <= (225 * 16) * (225 * 16));
    }
}

#[test]
fn new_with_two_seeds_has_no_edges() {
    let engine = VoronoiHero::new(500, 500, 2);
    assert_eq!(engine.seeds.len(), 2);
    assert_eq!(engine.edges.len(), 0);
}

#[test]
fn resize_replaces_the_seed_set_exactly() {
    let mut engine = VoronoiHero::new(500, 500, 10);
    assert_eq!(engine.seeds.len(), 10);
    engine.resize(300, 400, 4);
    assert_eq!(engine.seeds.len(), 4);
    assert_eq!(engine.width, 300 * 16);
    assert_eq!(engine.height, 400 * 16);
    // Center and radius follow the new, smaller canvas.
    assert_eq!(engine.center_x, 150 * 16);
    assert_eq!(engine.center_y, 200 * 16);
    assert_eq!(engine.radius, 300 * 144 / 20);
}

#[test]
fn tick_accumulates_time_and_keeps_bases() {
    let mut engine = VoronoiHero::new(500, 500, 10);
    let bases: Vec<(i64, i64)> = engine.seeds.iter().map(|s| (s.base_x, s.base_y)).collect();
    assert_eq!(engine.get_time(), 0);
    // 100 seconds, in microseconds: scaled time is 100000 ms * 0.00005 = 5.
    engine.tick(100_000_000);
    assert_eq!(engine.get_time(), 5 * 4096);
    for (s, (bx, by)) in engine.seeds.iter().zip(bases.iter()) {
        assert_eq!(s.base_x, *bx);
        assert_eq!(s.base_y, *by);
        // The noise excursion never exceeds eight pixels (128 units).
        assert!((s.x - s.base_x).abs() <= 128);
        assert!((s.y - s.base_y).abs() <= 128);
    }
}

#[test]
fn tick_time_is_additive() {
    let mut a = VoronoiHero::new(400, 400, 5);
    let mut b = VoronoiHero::new(400, 400, 5);
    a.tick(1_000_000);
    a.tick(2_000_000);
    b.tick(3_000_000);
    assert_eq!(a.time_accum, b.time_accum);
    assert_eq!(a.get_time(), b.get_time());
}

#[test]
fn end_to_end_determinism() {
    let mut a = VoronoiHero::new(500, 500, 12);
    let mut b = VoronoiHero::new(500, 500, 12);
    for dt in [16_000u64, 17_000, 16_000, 33_000, 1_000_000] {
        a.tick(dt);
        b.tick(dt);
        assert_eq!(a.seeds, b.seeds);
        assert_eq!(a.edges.len(), b.edges.len());
        for (ea, eb) in a.edges.iter().zip(b.edges.iter()) {
            assert_eq!(ea, eb);
        }
        assert_eq!(a.render(), b.render());
        assert_eq!(a.get_time(), b.get_time());
    }
}

#[test]
fn render_emits_clear_then_edges_then_nodes() {
    let engine = VoronoiHero::new(500, 500, 10);
    let cmds = engine.render();
    assert_eq!(cmds.len(), 1 + engine.edges.len() + engine.seeds.len());
    assert_eq!(cmds[0], DrawCmd::Clear { width: 500 * 16, height: 500 * 16 });
    for cmd in &cmds[1..1 + engine.edges.len()] {
        assert!(matches!(cmd, DrawCmd::StrokeLine { .. }));
    }
    for cmd in &cmds[1 + engine.edges.len()..] {
        assert!(matches!(cmd, DrawCmd::FillCircle { .. }));
    }
}

#[test]
fn render_styles_follow_the_distance_ratio() {
    let engine = VoronoiHero::new(500, 500, 40);
    let cmds = engine.render();
    for cmd in &cmds {
        match cmd {
            DrawCmd::Clear { width, height } => {
                assert_eq!((*width, *height), (8000, 8000));
            }
            DrawCmd::StrokeLine { alpha_milli, width_milli, .. } => {
                // alpha in [0.15, 0.40], stroke width in [0.5, 1.3].
                assert!(*alpha_milli >= 150 && *alpha_milli <= 400);
                assert!(*width_milli >= 500 && *width_milli <= 1300);
            }
            DrawCmd::FillCircle { alpha_milli, radius_milli, .. } => {
                // alpha in [0.4, 0.8], node radius in [1.5, 3.0] pixels.
                assert!(*alpha_milli >= 400 && *alpha_milli <= 800);
                assert!(*radius_milli >= 1500 && *radius_milli <= 3000);
            }
        }
    }
}

#[test]
fn render_does_not_mutate_the_engine() {
    let mut engine = VoronoiHero::new(500, 500, 8);
    engine.tick(50_000);
    let before: Vec<_> = engine.seeds.clone();
    let t = engine.get_time();
    let first = engine.render();
    let second = engine.render();
    assert_eq!(first, second);
    assert_eq!(engine.seeds, before);
    assert_eq!(engine.get_time(), t);
}

#[test]
fn tick_recomputes_positions_from_bases_not_positions() {
    // Replaying one large step against many small steps ends at the same
    // accumulated time, hence the same positions.
    let mut a = VoronoiHero::new(500, 500, 10);
    let mut b = VoronoiHero::new(500, 500, 10);
    for _ in 0..10 {
        a.tick(10_000);
    }
    b.tick(100_000);
    assert_eq!(a.time_accum, b.time_accum);
    assert_eq!(a.seeds, b.seeds);
}
