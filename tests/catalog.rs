use ball_catalog::catalog::{build_catalog, color_for, level_for, Hsl, LEVELS_PER_STAGE, STAGE_COUNT};

#[test]
fn catalog_has_two_stages_of_ten_levels() {
    let c = build_catalog();
    assert_eq!(c.stage_count(), 2);
    assert_eq!(c.stage_len(0), Some(10));
    assert_eq!(c.stage_len(1), Some(10));
    assert_eq!(c.stage_len(2), None);
    let mut total = 0;
    for s in 0..STAGE_COUNT {
        for i in 0..LEVELS_PER_STAGE {
            assert!(c.level(s, i).is_some());
            total += 1;
        }
    }
    assert_eq!(total, 20);
}

#[test]
fn radius_depends_on_index_only() {
    let c = build_catalog();
    for i in 0..LEVELS_PER_STAGE {
        let a = c.level(0, i).unwrap();
        let b = c.level(1, i).unwrap();
        assert_eq!(a.radius, b.radius);
        let exact = (i as f64 / std::f64::consts::PI).sqrt();
        assert!((a.radius as f64 / 1000.0 - exact).abs() < 0.002);
    }
}

#[test]
fn second_stage_hue_is_shifted_by_half_a_step() {
    let c = build_catalog();
    for i in 0..LEVELS_PER_STAGE {
        let h0 = c.level(0, i).unwrap().color.hue;
        let h1 = c.level(1, i).unwrap().color.hue;
        assert_eq!(h1, (h0 + 18) % 360);
        assert_eq!(h0, 36 * i as u32);
        assert_eq!(h1, 36 * i as u32 + 18);
    }
}

#[test]
fn radius_non_decreasing_within_stage() {
    let c = build_catalog();
    for s in 0..STAGE_COUNT {
        for i in 0..LEVELS_PER_STAGE - 1 {
            assert!(c.level(s, i).unwrap().radius <= c.level(s, i + 1).unwrap().radius);
        }
    }
}

#[test]
fn first_level_has_zero_radius() {
    let c = build_catalog();
    assert_eq!(c.level(0, 0).unwrap().radius, 0);
    assert_eq!(c.level(1, 0).unwrap().radius, 0);
}

#[test]
fn building_twice_gives_equal_catalogs() {
    assert_eq!(build_catalog(), build_catalog());
}

#[test]
fn colors_are_full_saturation_half_lightness() {
    let c = build_catalog();
    let l = c.level(1, 3).unwrap();
    assert_eq!(l.color, Hsl { hue: 126, saturation: 100, lightness: 50 });
    assert_eq!(l.radius, 977);
}

#[test]
fn hue_wraps_around_the_wheel() {
    assert_eq!(color_for(0, 10).hue, 0);
    assert_eq!(color_for(1, 19).hue, 342);
    assert_eq!(color_for(2, 0).hue, 36);
    assert_eq!(color_for(u32::MAX, u32::MAX).hue, ((u32::MAX as u64 * 54) % 360) as u32);
}

#[test]
fn level_for_matches_catalog() {
    let c = build_catalog();
    assert_eq!(c.level(1, 7), Some(level_for(1, 7)));
    assert_eq!(level_for(0, 4).radius, 1128);
}

#[test]
fn level_out_of_range_is_none() {
    let c = build_catalog();
    assert_eq!(c.level(0, 10), None);
    assert_eq!(c.level(2, 0), None);
}
