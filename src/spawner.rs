//! Spawning balls on a click, and finding the assets a ball is drawn with.
use vstd::prelude::*;
use crate::cache::{
    has_color, has_radius, is_material_cache_of, is_mesh_cache_of, MaterialCache, MeshCache,
};
use crate::catalog::{build_catalog, catalog_model, Catalog};

verus! {

/// A reference to one level of the catalog, by stage and level index.
#[derive(Clone, Copy, Debug, PartialEq, Eq, Structural)]
pub struct Tier {
    pub level: u32,
    pub stage: u32,
}

impl Tier {
    /// The tier of level `level` of stage `stage`.
    pub fn new(level: u32, stage: u32) -> (t: Tier)
        ensures
            t.level == level,
            t.stage == stage,
    {
        Tier { level, stage }
    }

    /// The tier that new balls get: the first level of the first stage.
    pub fn first() -> (t: Tier)
        ensures
            t == (Tier { level: 0, stage: 0 }),
    {
        Tier { level: 0, stage: 0 }
    }
}

impl Default for Tier {
    fn default() -> (t: Tier)
        ensures
            t == (Tier { level: 0, stage: 0 }),
    {
        Tier::first()
    }
}

/// A request to create one ball of the given tier.
#[derive(Clone, Copy, Debug, PartialEq, Eq, Structural)]
pub struct SpawnRequest {
    pub tier: Tier,
}

impl SpawnRequest {
    /// A request for a ball of level `level` of stage `stage`.
    pub fn new(level: u32, stage: u32) -> (r: SpawnRequest)
        ensures
            r.tier == (Tier { level, stage }),
    {
        SpawnRequest { tier: Tier::new(level, stage) }
    }
}

/// The request, if any, that a frame produces, from whether the button was held
/// in the frame before and whether it is pressed now.
pub open spec fn spawn_on(was_held: bool, pressed: bool) -> Option<SpawnRequest> {
    if pressed && !was_held {
        Some(SpawnRequest { tier: Tier { level: 0, stage: 0 } })
    } else {
        None
    }
}

/// Detects the frame in which the primary button goes down, and asks for one
/// first-tier ball then; holding the button asks for nothing more.
#[derive(Clone, Copy, Debug, PartialEq, Eq, Structural)]
pub struct ClickSpawner {
    /// Whether the button was down in the last frame seen.
    pub held: bool,
}

impl ClickSpawner {
    /// A spawner that has seen the button up.
    pub fn new() -> (s: ClickSpawner)
        ensures
            !s.held,
    {
        ClickSpawner { held: false }
    }

    /// Takes this frame's state of the primary button; returns the request that
    /// the press transition asks for.
    pub fn on_input(&mut self, pressed: bool) -> (r: Option<SpawnRequest>)
        ensures
            r == spawn_on(old(self).held, pressed),
            final(self).held == pressed,
    {
        let was_held = self.held;
        self.held = pressed;
        if pressed && !was_held {
            Some(SpawnRequest::new(0, 0))
        } else {
            None
        }
    }
}

/// Where the mesh and the material of a ball stand in their caches.
#[derive(Clone, Copy, Debug, PartialEq, Eq, Structural)]
pub struct AssetSlots {
    pub mesh: usize,
    pub material: usize,
}

/// The catalog has the level that `tier` names.
pub open spec fn tier_in(m: Seq<Seq<crate::catalog::Level>>, tier: Tier) -> bool {
    tier.stage < m.len() && tier.level < m[tier.stage as int].len()
}

/// The cache slots of the mesh and material of the ball of tier `tier`:
/// `None` where the catalog has no such level, or a cache lacks its key.
pub fn resolve(catalog: &Catalog, meshes: &MeshCache, materials: &MaterialCache, tier: Tier) -> (r:
    Option<AssetSlots>)
    ensures
        match r {
            Some(a) => {
                &&& tier_in(catalog@, tier)
                &&& a.mesh < meshes@.len()
                &&& meshes@[a.mesh as int].radius == catalog@[tier.stage as int][tier.level as int].radius
                &&& a.material < materials@.len()
                &&& materials@[a.material as int] == catalog@[tier.stage as int][tier.level as int].color
            },
            None => !tier_in(catalog@, tier) || !has_radius(
                meshes@,
                catalog@[tier.stage as int][tier.level as int].radius,
            ) || !has_color(materials@, catalog@[tier.stage as int][tier.level as int].color),
        },
        is_mesh_cache_of(meshes@, catalog@) && is_material_cache_of(materials@, catalog@)
            && tier_in(catalog@, tier) ==> r is Some,
{
    let level = match catalog.level(tier.stage as usize, tier.level as usize) {
        Some(l) => l,
        None => return None,
    };
    proof {
        let m = catalog@;
        assert(m[tier.stage as int][tier.level as int].radius == level.radius);
    }
    let mesh = match meshes.slot(level.radius) {
        Some(k) => k,
        None => return None,
    };
    let material = match materials.slot(level.color) {
        Some(k) => k,
        None => return None,
    };
    Some(AssetSlots { mesh, material })
}

/// The read-only state that drawing and spawning balls share: the catalog and
/// the two caches built from it.
#[derive(Debug, PartialEq, Eq)]
pub struct BallAssets {
    pub catalog: Catalog,
    pub meshes: MeshCache,
    pub materials: MaterialCache,
}

impl BallAssets {
    /// Builds the catalog and both caches; run once, at startup.
    pub fn init() -> (a: BallAssets)
        ensures
            a.catalog@ == catalog_model(),
            is_mesh_cache_of(a.meshes@, a.catalog@),
            is_material_cache_of(a.materials@, a.catalog@),
    {
        let catalog = build_catalog();
        let meshes = MeshCache::build(&catalog);
        let materials = MaterialCache::build(&catalog);
        BallAssets { catalog, meshes, materials }
    }

    /// The cache slots of the ball of tier `tier`; for caches built from the
    /// catalog, `None` exactly where the catalog has no such level.
    pub fn slots(&self, tier: Tier) -> (r: Option<AssetSlots>)
        ensures
            is_mesh_cache_of(self.meshes@, self.catalog@) && is_material_cache_of(
                self.materials@,
                self.catalog@,
            ) ==> (r is Some <==> tier_in(self.catalog@, tier)),
            r matches Some(a) ==> a.mesh < self.meshes@.len() && self.meshes@[a.mesh as int].radius
                == self.catalog@[tier.stage as int][tier.level as int].radius && a.material
                < self.materials@.len() && self.materials@[a.material as int]
                == self.catalog@[tier.stage as int][tier.level as int].color,
    {
        resolve(&self.catalog, &self.meshes, &self.materials, tier)
    }
}

} // verus!
