//! Tests for the geometric parts: spiral seed placement, the exact
//! circumcircle predicate, the Delaunay edge set and the color gradient.
//! Canvas coordinates are fixed point with 16 units per pixel.

use voronoi_hero::color::interpolate_color;
use voronoi_hero::color::lerp_u8;
use voronoi_hero::delaunay::circumcircle_contains;
use voronoi_hero::delaunay::compute_delaunay_edges;
use voronoi_hero::seeds::cos_fp;
use voronoi_hero::seeds::generate_golden_seeds;
use voronoi_hero::seeds::isqrt;
use voronoi_hero::seeds::sin_fp;
use voronoi_hero::seeds::Seed;

fn seed_at(x: i64, y: i64) -> Seed {
    Seed { x, y, base_x: x, base_y: y }
}

#[test]
fn test_golden_seeds() {
    // 500 pixels center, 200 pixels radius, in 16-units-per-pixel fixed point.
    let seeds = generate_golden_seeds(10, 500 * 16, 500 * 16, 200 * 16);
    assert_eq!(seeds.len(), 10);
}

#[test]
fn generate_zero_count_is_empty() {
    let seeds = generate_golden_seeds(0, 8000, 8000, 3200);
    assert_eq!(seeds.len(), 0);
}

#[test]
fn generate_length_matches_count() {
    for count in [1usize, 2, 3, 17, 100] {
        let seeds = generate_golden_seeds(count, 8000, 8000, 3200);
        assert_eq!(seeds.len(), count);
    }
}

#[test]
fn generate_is_deterministic() {
    let a = generate_golden_seeds(25, 8000, 8000, 3600);
    let b = generate_golden_seeds(25, 8000, 8000, 3600);
    assert_eq!(a.len(), b.len());
    for i in 0..a.len() {
        assert_eq!(a[i], b[i]);
    }
}

#[test]
fn generate_stays_within_radius_and_base_equals_position() {
    let seeds = generate_golden_seeds(50, 8000, 8000, 3600);
    for s in &seeds {
        let dx = s.x - 8000;
        let dy = s.y - 8000;
        assert!(dx * dx + dy * dy <= 3600 * 3600);
        assert_eq!(s.x, s.base_x);
        assert_eq!(s.y, s.base_y);
    }
}

#[test]
fn trig_hits_exact_quarters() {
    assert_eq!(sin_fp(0), 0);
    assert_eq!(sin_fp(16384), 4096);
    assert_eq!(sin_fp(32768), 0);
    assert_eq!(sin_fp(49152), -4096);
    assert_eq!(cos_fp(0), 4096);
    assert_eq!(cos_fp(16384), 0);
    assert_eq!(cos_fp(32768), -4096);
}

#[test]
fn isqrt_exact_values() {
    assert_eq!(isqrt(0), 0);
    assert_eq!(isqrt(1), 1);
    assert_eq!(isqrt(15), 3);
    assert_eq!(isqrt(16), 4);
    assert_eq!(isqrt(1 << 40), 1 << 20);
}

#[test]
fn circumcircle_strict_interior_and_exterior() {
    // Triangle (0,0), (4,0), (0,4): circumcenter (2,2), squared radius 8.
    assert!(circumcircle_contains(0, 0, 4, 0, 0, 4, 2, 2));
    assert!(!circumcircle_contains(0, 0, 4, 0, 0, 4, 10, 10));
    // A point exactly on the circle is not strictly inside.
    assert!(!circumcircle_contains(0, 0, 4, 0, 0, 4, 4, 4));
}

#[test]
fn circumcircle_degenerate_contains_nothing() {
    // Collinear triangle: zero signed area, conservatively excludes all.
    assert!(!circumcircle_contains(0, 0, 2, 2, 4, 4, 1, 0));
    assert!(!circumcircle_contains(0, 0, 2, 2, 4, 4, 1000, 1000));
}

#[test]
fn triangulate_under_three_points_is_empty() {
    let empty: Vec<Seed> = Vec::new();
    assert_eq!(compute_delaunay_edges(&empty, 8000, 8000).len(), 0);
    let one = vec![seed_at(100, 100)];
    assert_eq!(compute_delaunay_edges(&one, 8000, 8000).len(), 0);
    let two = vec![seed_at(100, 100), seed_at(200, 300)];
    assert_eq!(compute_delaunay_edges(&two, 8000, 8000).len(), 0);
}

#[test]
fn triangulate_square_with_center_honors_empty_circles() {
    // Four corners of a square and its center. The Delaunay triangulation
    // is the four spoke triangles: the four sides plus four spokes, and
    // never a corner-to-opposite-corner diagonal (whose triangles'
    // circumcircles would strictly contain the center point).
    let pts = vec![
        seed_at(0, 0),
        seed_at(3200, 0),
        seed_at(3200, 3200),
        seed_at(0, 3200),
        seed_at(1600, 1600),
    ];
    let edges = compute_delaunay_edges(&pts, 3200, 3200);
    assert_eq!(edges.len(), 8);
    let mut pairs: Vec<(usize, usize)> = edges.iter().map(|e| (e.a, e.b)).collect();
    pairs.sort();
    let expected = vec![
        (0, 1),
        (0, 3),
        (0, 4),
        (1, 2),
        (1, 4),
        (2, 3),
        (2, 4),
        (3, 4),
    ];
    assert_eq!(pairs, expected);
}

#[test]
fn triangulate_edges_are_distinct_real_pairs() {
    let seeds = generate_golden_seeds(30, 8000, 8000, 3600);
    let edges = compute_delaunay_edges(&seeds, 16000, 16000);
    assert!(!edges.is_empty());
    for (i, e) in edges.iter().enumerate() {
        assert!(e.a < e.b);
        assert!(e.b < seeds.len());
        assert_eq!(e.x1, seeds[e.a].x);
        assert_eq!(e.y1, seeds[e.a].y);
        assert_eq!(e.x2, seeds[e.b].x);
        assert_eq!(e.y2, seeds[e.b].y);
        for other in &edges[i + 1..] {
            assert!(!(e.a == other.a && e.b == other.b));
        }
    }
}

#[test]
fn color_hits_all_three_stops() {
    assert_eq!(interpolate_color(0), (255, 215, 0));
    assert_eq!(interpolate_color(500), (212, 165, 116));
    assert_eq!(interpolate_color(1000), (205, 127, 50));
}

#[test]
fn color_channels_move_monotonically() {
    let mut prev = interpolate_color(0);
    for r in 1..=500u32 {
        let c = interpolate_color(r);
        assert!(c.0 <= prev.0);
        assert!(c.1 <= prev.1);
        assert!(c.2 >= prev.2);
        prev = c;
    }
    let mut prev = interpolate_color(500);
    for r in 501..=1000u32 {
        let c = interpolate_color(r);
        assert!(c.0 <= prev.0);
        assert!(c.1 <= prev.1);
        assert!(c.2 <= prev.2);
        prev = c;
    }
}

#[test]
fn color_is_continuous_at_the_midpoint() {
    let below = interpolate_color(499);
    let at = interpolate_color(500);
    assert!((below.0 as i32 - at.0 as i32).abs() <= 1);
    assert!((below.1 as i32 - at.1 as i32).abs() <= 1);
    assert!((below.2 as i32 - at.2 as i32).abs() <= 1);
}

#[test]
fn lerp_u8_rounds_to_nearest() {
    assert_eq!(lerp_u8(0, 116, 0), 0);
    assert_eq!(lerp_u8(0, 116, 1000), 116);
    assert_eq!(lerp_u8(0, 116, 500), 58);
    assert_eq!(lerp_u8(255, 212, 500), 234);
    assert_eq!(lerp_u8(10, 10, 777), 10);
}
