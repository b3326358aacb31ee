use ball_catalog::cache::{MaterialCache, MeshCache};
use ball_catalog::catalog::{build_catalog, LEVELS_PER_STAGE, STAGE_COUNT};

#[test]
fn mesh_cache_has_one_entry_per_distinct_radius() {
    let c = build_catalog();
    let meshes = MeshCache::build(&c);
    assert_eq!(meshes.len(), 10);
    let expected: [u32; 10] = [0, 564, 797, 977, 1128, 1261, 1381, 1492, 1595, 1692];
    let vertices: [u64; 10] = [8, 25, 29, 32, 34, 35, 36, 38, 39, 39];
    for k in 0..10 {
        let e = meshes.entry(k).unwrap();
        assert_eq!(e.radius, expected[k]);
        assert_eq!(e.vertices, vertices[k]);
    }
    assert_eq!(meshes.entry(10), None);
}

#[test]
fn every_catalog_radius_has_a_mesh() {
    let c = build_catalog();
    let meshes = MeshCache::build(&c);
    for s in 0..STAGE_COUNT {
        for i in 0..LEVELS_PER_STAGE {
            let r = c.level(s, i).unwrap().radius;
            let k = meshes.slot(r).unwrap();
            assert_eq!(meshes.entry(k).unwrap().radius, r);
        }
    }
    assert_eq!(meshes.slot(1), None);
}

#[test]
fn material_cache_has_twenty_distinct_colors() {
    let c = build_catalog();
    let materials = MaterialCache::build(&c);
    assert_eq!(materials.len(), 20);
    for a in 0..20 {
        for b in 0..20 {
            if a != b {
                assert_ne!(materials.color(a), materials.color(b));
            }
        }
    }
    assert_eq!(materials.color(20), None);
}

#[test]
fn every_catalog_color_has_a_material() {
    let c = build_catalog();
    let materials = MaterialCache::build(&c);
    for s in 0..STAGE_COUNT {
        for i in 0..LEVELS_PER_STAGE {
            let color = c.level(s, i).unwrap().color;
            let k = materials.slot(color).unwrap();
            assert_eq!(materials.color(k), Some(color));
        }
    }
}
