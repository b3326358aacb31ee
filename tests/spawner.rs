use ball_catalog::spawner::{BallAssets, ClickSpawner, SpawnRequest, Tier};

#[test]
fn press_spawns_once_and_holding_spawns_nothing() {
    let mut s = ClickSpawner::new();
    let first = s.on_input(true);
    assert_eq!(first, Some(SpawnRequest { tier: Tier { level: 0, stage: 0 } }));
    assert_eq!(s.on_input(true), None);
}

#[test]
fn no_press_no_request() {
    let mut s = ClickSpawner::new();
    assert_eq!(s.on_input(false), None);
    assert_eq!(s.on_input(false), None);
}

#[test]
fn release_then_press_spawns_again() {
    let mut s = ClickSpawner::new();
    assert!(s.on_input(true).is_some());
    assert_eq!(s.on_input(false), None);
    assert_eq!(s.on_input(true), Some(SpawnRequest::new(0, 0)));
}

#[test]
fn default_tier_is_first_level_of_first_stage() {
    assert_eq!(Tier::default(), Tier { level: 0, stage: 0 });
    assert_eq!(Tier::new(3, 1), Tier { level: 3, stage: 1 });
}

#[test]
fn tiers_resolve_to_their_assets() {
    let assets = BallAssets::init();
    for stage in 0..2u32 {
        for level in 0..10u32 {
            let slots = assets.slots(Tier::new(level, stage)).unwrap();
            let l = assets.catalog.level(stage as usize, level as usize).unwrap();
            assert_eq!(assets.meshes.entry(slots.mesh).unwrap().radius, l.radius);
            assert_eq!(assets.materials.color(slots.material), Some(l.color));
        }
    }
    let a = assets.slots(Tier::new(4, 0)).unwrap();
    let b = assets.slots(Tier::new(4, 1)).unwrap();
    assert_eq!(a.mesh, b.mesh);
    assert_ne!(a.material, b.material);
}

#[test]
fn unknown_tier_resolves_to_nothing() {
    let assets = BallAssets::init();
    assert_eq!(assets.slots(Tier::new(10, 0)), None);
    assert_eq!(assets.slots(Tier::new(0, 2)), None);
}
