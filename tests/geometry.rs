use ball_catalog::geometry::{circle_vertices, floor_sqrt_u64, radius_for_area, MIN_VERTICES};

#[test]
fn floor_sqrt_small_values() {
    assert_eq!(floor_sqrt_u64(0), 0);
    assert_eq!(floor_sqrt_u64(1), 1);
    assert_eq!(floor_sqrt_u64(3), 1);
    assert_eq!(floor_sqrt_u64(4), 2);
    assert_eq!(floor_sqrt_u64(15), 3);
    assert_eq!(floor_sqrt_u64(16), 4);
    assert_eq!(floor_sqrt_u64(1_000_000), 1000);
}

#[test]
fn floor_sqrt_largest_input() {
    assert_eq!(floor_sqrt_u64(u64::MAX), 4_294_967_295);
}

#[test]
fn radius_of_each_level_area() {
    let expected: [u32; 10] = [0, 564, 797, 977, 1128, 1261, 1381, 1492, 1595, 1692];
    for (area, want) in expected.iter().enumerate() {
        assert_eq!(radius_for_area(area as u32), *want);
    }
}

#[test]
fn radius_is_close_to_sqrt_of_area_over_pi() {
    for area in 0u32..200 {
        let r = radius_for_area(area) as f64 / 1000.0;
        let exact = (area as f64 / std::f64::consts::PI).sqrt();
        assert!(r <= exact + 1e-6);
        assert!(exact - r < 0.002);
    }
}

#[test]
fn radius_of_largest_area_fits() {
    let r = radius_for_area(u32::MAX) as u64;
    let n = u32::MAX as u64 * 113_000_000 / 355;
    assert!(r * r <= n);
    assert!((r + 1) * (r + 1) > n);
}

#[test]
fn vertex_count_exact_values() {
    assert_eq!(circle_vertices(0), 8);
    assert_eq!(circle_vertices(564), 25);
    assert_eq!(circle_vertices(1000), 32);
    assert_eq!(circle_vertices(1692), 39);
    assert_eq!(circle_vertices(2000), 42);
    assert_eq!(circle_vertices(1_000_000), 507);
    assert_eq!(circle_vertices(u32::MAX), 14399);
}

#[test]
fn vertex_count_floor_at_tiny_radii() {
    assert_eq!(circle_vertices(1), MIN_VERTICES);
    assert_eq!(circle_vertices(10), MIN_VERTICES);
    assert_eq!(circle_vertices(100), 13);
}

#[test]
fn vertex_count_non_decreasing_in_radius() {
    let mut last = circle_vertices(0);
    assert!(last >= MIN_VERTICES);
    for q in 1u32..20_000 {
        let v = circle_vertices(q);
        assert!(v >= last);
        last = v;
    }
}

#[test]
fn vertex_count_matches_rounded_power_law() {
    for q in [564u32, 797, 977, 1128, 1261, 1381, 1492, 1595, 1692, 5000, 123_456] {
        let x = 32.0 * (q as f64 / 1000.0).powf(0.4);
        let want = (x.round() as u64).max(MIN_VERTICES);
        assert_eq!(circle_vertices(q), want);
    }
}
