//! The mesh cache, one circle per distinct radius of the catalog, and the
//! material cache, one material per distinct color.
use vstd::prelude::*;
use crate::catalog::{
    catalog_model, lemma_radius_depends_on_index_only, Catalog, Hsl, Level, LEVELS_PER_STAGE,
};
use crate::geometry::{circle_vertices, vertex_count};

verus! {

/// Level `(t, j)` comes before position `(s, i)` in stage-major order.
pub open spec fn level_before(m: Seq<Seq<Level>>, s: int, i: int, t: int, j: int) -> bool {
    0 <= t < m.len() && 0 <= j < m[t].len() && (t < s || (t == s && j < i))
}

/// Some level before position `(s, i)` has radius `r`.
pub open spec fn radius_seen(m: Seq<Seq<Level>>, s: int, i: int, r: u32) -> bool {
    exists|t: int, j: int| level_before(m, s, i, t, j) && #[trigger] m[t][j].radius == r
}

/// Some level of the catalog has radius `r`.
pub open spec fn radius_in(m: Seq<Seq<Level>>, r: u32) -> bool {
    exists|t: int, j: int| 0 <= t < m.len() && 0 <= j < m[t].len() && #[trigger] m[t][j].radius == r
}

/// The distinct radii of the catalog.
pub open spec fn catalog_radii(m: Seq<Seq<Level>>) -> Set<u32> {
    Set::new(|r: u32| radius_in(m, r))
}

/// Radius depends on the level index alone, so the catalog has no more distinct
/// radii than a stage has levels, and its mesh cache no more entries.
pub proof fn lemma_distinct_radii_at_most_levels()
    ensures
        catalog_radii(catalog_model()).len() <= LEVELS_PER_STAGE,
{
    let m = catalog_model();
    let first = m[0].map_values(|l: Level| l.radius);
    assert(catalog_radii(m) =~= first.to_set()) by {
        assert forall|r: u32| catalog_radii(m).contains(r) <==> first.to_set().contains(r) by {
            if radius_in(m, r) {
                let (t, j) = choose|t: int, j: int| 0 <= t < m.len() && 0 <= j < m[t].len() && #[trigger] m[t][j].radius == r;
                lemma_radius_depends_on_index_only(t, 0, j);
                assert(first[j] == r);
            }
            if first.to_set().contains(r) {
                let j = choose|j: int| 0 <= j < first.len() && first[j] == r;
                assert(m[0][j].radius == r);
            }
        }
    }
    first.lemma_cardinality_of_set();
}

/// One cached circle: its radius in thousandths and its vertex count.
#[derive(Clone, Copy, Debug, PartialEq, Eq, Structural)]
pub struct MeshEntry {
    pub radius: u32,
    pub vertices: u64,
}

/// The radii of the entries, in order.
pub open spec fn mesh_radii(e: Seq<MeshEntry>) -> Seq<u32> {
    e.map_values(|x: MeshEntry| x.radius)
}

/// Some entry has radius `r`.
pub open spec fn has_radius(e: Seq<MeshEntry>, r: u32) -> bool {
    exists|k: int| 0 <= k < e.len() && #[trigger] e[k].radius == r
}

/// No two entries share a radius, and each has the vertex count of its radius.
pub open spec fn mesh_entries_valid(e: Seq<MeshEntry>) -> bool {
    &&& forall|a: int, b: int|
        0 <= a < e.len() && 0 <= b < e.len() && a != b ==> #[trigger] e[a].radius != #[trigger] e[b].radius
    &&& forall|k: int| 0 <= k < e.len() ==> (#[trigger] e[k]).vertices == vertex_count(e[k].radius as nat)
}

/// The circles to draw the catalog with, one per distinct radius.
#[derive(Debug, PartialEq, Eq)]
pub struct MeshCache {
    entries: Vec<MeshEntry>,
}

impl View for MeshCache {
    type V = Seq<MeshEntry>;

    closed spec fn view(&self) -> Seq<MeshEntry> {
        self.entries@
    }
}

/// `e` is the mesh cache of catalog `m`: one valid entry per distinct radius.
pub open spec fn is_mesh_cache_of(e: Seq<MeshEntry>, m: Seq<Seq<Level>>) -> bool {
    &&& mesh_entries_valid(e)
    &&& forall|r: u32| has_radius(e, r) <==> radius_in(m, r)
}

fn find_radius(entries: &Vec<MeshEntry>, radius: u32) -> (k: Option<usize>)
    ensures
        match k {
            Some(k) => k < entries@.len() && entries@[k as int].radius == radius,
            None => !has_radius(entries@, radius),
        },
{
    let mut k: usize = 0;
    while k < entries.len()
        invariant
            k <= entries@.len(),
            forall|j: int| 0 <= j < k ==> #[trigger] entries@[j].radius != radius,
        decreases entries@.len() - k,
    {
        if entries[k].radius == radius {
            return Some(k);
        }
        k = k + 1;
    }
    None
}

proof fn lemma_unique_count(e: Seq<MeshEntry>, m: Seq<Seq<Level>>)
    requires
        is_mesh_cache_of(e, m),
    ensures
        e.len() == catalog_radii(m).len(),
{
    let keys = mesh_radii(e);
    assert(keys.no_duplicates()) by {
        assert forall|a: int, b: int| 0 <= a < keys.len() && 0 <= b < keys.len() && a != b implies keys[a]
            != keys[b] by {
            assert(e[a].radius != e[b].radius);
        }
    }
    assert(keys.to_set() =~= catalog_radii(m)) by {
        assert forall|r: u32| keys.to_set().contains(r) <==> catalog_radii(m).contains(r) by {
            if keys.to_set().contains(r) {
                let k = choose|k: int| 0 <= k < keys.len() && keys[k] == r;
                assert(e[k].radius == r);
            }
            if catalog_radii(m).contains(r) {
                assert(has_radius(e, r));
                let k = choose|k: int| 0 <= k < e.len() && #[trigger] e[k].radius == r;
                assert(keys[k] == r);
            }
        }
    }
    keys.unique_seq_to_set();
}

impl MeshCache {
    /// Builds the cache of `catalog`: one entry per distinct radius, in the order
    /// in which the radii first occur, stage by stage.
    pub fn build(catalog: &Catalog) -> (c: MeshCache)
        ensures
            is_mesh_cache_of(c@, catalog@),
            c@.len() == catalog_radii(catalog@).len(),
    {
        let ghost m = catalog@;
        let mut entries: Vec<MeshEntry> = Vec::new();
        let n = catalog.stage_count();
        let mut s: usize = 0;
        while s < n
            invariant
                n == m.len(),
                m == catalog@,
                s <= n,
                mesh_entries_valid(entries@),
                forall|r: u32| has_radius(entries@, r) <==> radius_seen(m, s as int, 0, r),
            decreases n - s,
        {
            let len = catalog.stage_len(s).unwrap();
            let mut i: usize = 0;
            while i < len
                invariant
                    n == m.len(),
                    m == catalog@,
                    s < n,
                    len == m[s as int].len(),
                    i <= len,
                    mesh_entries_valid(entries@),
                    forall|r: u32| has_radius(entries@, r) <==> radius_seen(m, s as int, i as int, r),
                decreases len - i,
            {
                let level = catalog.level(s, i).unwrap();
                let ghost before = entries@;
                let found = find_radius(&entries, level.radius);
                if found.is_none() {
                    entries.push(MeshEntry { radius: level.radius, vertices: circle_vertices(level.radius) });
                    proof {
                        assert(entries@[before.len() as int].radius == level.radius);
                        assert forall|k: int| 0 <= k < before.len() implies #[trigger] entries@[k] == before[k] by {}
                    }
                }
                proof {
                    assert forall|r: u32| has_radius(entries@, r) <==> radius_seen(m, s as int, i + 1, r) by {
                        if radius_seen(m, s as int, i + 1, r) {
                            let (t, j) = choose|t: int, j: int| level_before(m, s as int, i + 1, t, j) && #[trigger] m[t][j].radius == r;
                            if t == s && j == i {
                                match found {
                                    Some(k) => assert(entries@[k as int].radius == r),
                                    None => assert(entries@[before.len() as int].radius == r),
                                }
                            } else {
                                assert(radius_seen(m, s as int, i as int, r));
                                assert(has_radius(before, r));
                                let k = choose|k: int| 0 <= k < before.len() && #[trigger] before[k].radius == r;
                                assert(entries@[k].radius == r);
                            }
                        }
                        if has_radius(entries@, r) {
                            let k = choose|k: int| 0 <= k < entries@.len() && #[trigger] entries@[k].radius == r;
                            if k < before.len() {
                                assert(before[k].radius == r);
                                assert(has_radius(before, r));
                                let (t, j) = choose|t: int, j: int| level_before(m, s as int, i as int, t, j) && #[trigger] m[t][j].radius == r;
                                assert(level_before(m, s as int, i + 1, t, j));
                            } else {
                                assert(level_before(m, s as int, i + 1, s as int, i as int));
                                assert(m[s as int][i as int].radius == r);
                            }
                        }
                    }
                }
                i = i + 1;
            }
            proof {
                assert forall|r: u32| radius_seen(m, s as int, i as int, r) <==> radius_seen(m, s + 1, 0, r) by {
                    if radius_seen(m, s as int, i as int, r) {
                        let (t, j) = choose|t: int, j: int| level_before(m, s as int, i as int, t, j) && #[trigger] m[t][j].radius == r;
                        assert(level_before(m, s + 1, 0, t, j));
                    }
                    if radius_seen(m, s + 1, 0, r) {
                        let (t, j) = choose|t: int, j: int| level_before(m, s + 1, 0, t, j) && #[trigger] m[t][j].radius == r;
                        assert(level_before(m, s as int, i as int, t, j));
                    }
                }
            }
            s = s + 1;
        }
        proof {
            assert forall|r: u32| radius_seen(m, s as int, 0, r) <==> radius_in(m, r) by {
                if radius_in(m, r) {
                    let (t, j) = choose|t: int, j: int| 0 <= t < m.len() && 0 <= j < m[t].len() && #[trigger] m[t][j].radius == r;
                    assert(level_before(m, s as int, 0, t, j));
                }
            }
            lemma_unique_count(entries@, m);
        }
        MeshCache { entries }
    }

    /// Number of cached circles.
    pub fn len(&self) -> (n: usize)
        ensures
            n == self@.len(),
    {
        self.entries.len()
    }

    /// The entry in slot `k`, or `None` past the end.
    pub fn entry(&self, k: usize) -> (e: Option<MeshEntry>)
        ensures
            e == (if k < self@.len() { Some(self@[k as int]) } else { None::<MeshEntry> }),
    {
        if k < self.entries.len() {
            Some(self.entries[k])
        } else {
            None
        }
    }

    /// The slot of the circle of radius `radius`, or `None` where no level has it.
    pub fn slot(&self, radius: u32) -> (k: Option<usize>)
        ensures
            match k {
                Some(k) => k < self@.len() && self@[k as int].radius == radius,
                None => !has_radius(self@, radius),
            },
    {
        find_radius(&self.entries, radius)
    }
}

/// Some level before position `(s, i)` has color `c`.
pub open spec fn color_seen(m: Seq<Seq<Level>>, s: int, i: int, c: Hsl) -> bool {
    exists|t: int, j: int| level_before(m, s, i, t, j) && #[trigger] m[t][j].color == c
}

/// Some level of the catalog has color `c`.
pub open spec fn color_in(m: Seq<Seq<Level>>, c: Hsl) -> bool {
    exists|t: int, j: int| 0 <= t < m.len() && 0 <= j < m[t].len() && #[trigger] m[t][j].color == c
}

/// The distinct colors of the catalog.
pub open spec fn catalog_colors(m: Seq<Seq<Level>>) -> Set<Hsl> {
    Set::new(|c: Hsl| color_in(m, c))
}

/// Some entry is color `c`.
pub open spec fn has_color(e: Seq<Hsl>, c: Hsl) -> bool {
    exists|k: int| 0 <= k < e.len() && #[trigger] e[k] == c
}

/// `e` is the material cache of catalog `m`: each distinct color once.
pub open spec fn is_material_cache_of(e: Seq<Hsl>, m: Seq<Seq<Level>>) -> bool {
    &&& e.no_duplicates()
    &&& forall|c: Hsl| has_color(e, c) <==> color_in(m, c)
}

/// The colors to paint the catalog with, one material per distinct color.
#[derive(Debug, PartialEq, Eq)]
pub struct MaterialCache {
    colors: Vec<Hsl>,
}

impl View for MaterialCache {
    type V = Seq<Hsl>;

    closed spec fn view(&self) -> Seq<Hsl> {
        self.colors@
    }
}

fn find_color(colors: &Vec<Hsl>, color: Hsl) -> (k: Option<usize>)
    ensures
        match k {
            Some(k) => k < colors@.len() && colors@[k as int] == color,
            None => !has_color(colors@, color),
        },
{
    let mut k: usize = 0;
    while k < colors.len()
        invariant
            k <= colors@.len(),
            forall|j: int| 0 <= j < k ==> #[trigger] colors@[j] != color,
        decreases colors@.len() - k,
    {
        if colors[k] == color {
            return Some(k);
        }
        k = k + 1;
    }
    None
}

proof fn lemma_color_count(e: Seq<Hsl>, m: Seq<Seq<Level>>)
    requires
        is_material_cache_of(e, m),
    ensures
        e.len() == catalog_colors(m).len(),
{
    assert(e.to_set() =~= catalog_colors(m)) by {
        assert forall|c: Hsl| e.to_set().contains(c) <==> catalog_colors(m).contains(c) by {
            if e.to_set().contains(c) {
                let k = choose|k: int| 0 <= k < e.len() && e[k] == c;
                assert(has_color(e, c));
            }
        }
    }
    e.unique_seq_to_set();
}

impl MaterialCache {
    /// Builds the cache of `catalog`: each distinct color once, in the order in
    /// which the colors first occur, stage by stage.
    pub fn build(catalog: &Catalog) -> (c: MaterialCache)
        ensures
            is_material_cache_of(c@, catalog@),
            c@.len() == catalog_colors(catalog@).len(),
    {
        let ghost m = catalog@;
        let mut colors: Vec<Hsl> = Vec::new();
        let n = catalog.stage_count();
        let mut s: usize = 0;
        while s < n
            invariant
                n == m.len(),
                m == catalog@,
                s <= n,
                colors@.no_duplicates(),
                forall|c: Hsl| has_color(colors@, c) <==> color_seen(m, s as int, 0, c),
            decreases n - s,
        {
            let len = catalog.stage_len(s).unwrap();
            let mut i: usize = 0;
            while i < len
                invariant
                    n == m.len(),
                    m == catalog@,
                    s < n,
                    len == m[s as int].len(),
                    i <= len,
                    colors@.no_duplicates(),
                    forall|c: Hsl| has_color(colors@, c) <==> color_seen(m, s as int, i as int, c),
                decreases len - i,
            {
                let level = catalog.level(s, i).unwrap();
                let ghost before = colors@;
                let found = find_color(&colors, level.color);
                if found.is_none() {
                    colors.push(level.color);
                    proof {
                        assert forall|k: int| 0 <= k < before.len() implies #[trigger] colors@[k] == before[k] by {}
                        assert forall|a: int, b: int| 0 <= a < colors@.len() && 0 <= b < colors@.len() && a != b
                            implies colors@[a] != colors@[b] by {
                            if a == before.len() {
                                assert(before[b] == colors@[b]);
                            } else if b == before.len() {
                                assert(before[a] == colors@[a]);
                            }
                        }
                    }
                }
                proof {
                    assert forall|c: Hsl| has_color(colors@, c) <==> color_seen(m, s as int, i + 1, c) by {
                        if color_seen(m, s as int, i + 1, c) {
                            let (t, j) = choose|t: int, j: int| level_before(m, s as int, i + 1, t, j) && #[trigger] m[t][j].color == c;
                            if t == s && j == i {
                                match found {
                                    Some(k) => assert(colors@[k as int] == c),
                                    None => assert(colors@[before.len() as int] == c),
                                }
                            } else {
                                assert(color_seen(m, s as int, i as int, c));
                                assert(has_color(before, c));
                                let k = choose|k: int| 0 <= k < before.len() && #[trigger] before[k] == c;
                                assert(colors@[k] == c);
                            }
                        }
                        if has_color(colors@, c) {
                            let k = choose|k: int| 0 <= k < colors@.len() && #[trigger] colors@[k] == c;
                            if k < before.len() {
                                assert(before[k] == c);
                                assert(has_color(before, c));
                                let (t, j) = choose|t: int, j: int| level_before(m, s as int, i as int, t, j) && #[trigger] m[t][j].color == c;
                                assert(level_before(m, s as int, i + 1, t, j));
                            } else {
                                assert(level_before(m, s as int, i + 1, s as int, i as int));
                                assert(m[s as int][i as int].color == c);
                            }
                        }
                    }
                }
                i = i + 1;
            }
            proof {
                assert forall|c: Hsl| color_seen(m, s as int, i as int, c) <==> color_seen(m, s + 1, 0, c) by {
                    if color_seen(m, s as int, i as int, c) {
                        let (t, j) = choose|t: int, j: int| level_before(m, s as int, i as int, t, j) && #[trigger] m[t][j].color == c;
                        assert(level_before(m, s + 1, 0, t, j));
                    }
                    if color_seen(m, s + 1, 0, c) {
                        let (t, j) = choose|t: int, j: int| level_before(m, s + 1, 0, t, j) && #[trigger] m[t][j].color == c;
                        assert(level_before(m, s as int, i as int, t, j));
                    }
                }
            }
            s = s + 1;
        }
        proof {
            assert forall|c: Hsl| color_seen(m, s as int, 0, c) <==> color_in(m, c) by {
                if color_in(m, c) {
                    let (t, j) = choose|t: int, j: int| 0 <= t < m.len() && 0 <= j < m[t].len() && #[trigger] m[t][j].color == c;
                    assert(level_before(m, s as int, 0, t, j));
                }
            }
            lemma_color_count(colors@, m);
        }
        MaterialCache { colors }
    }

    /// Number of cached materials.
    pub fn len(&self) -> (n: usize)
        ensures
            n == self@.len(),
    {
        self.colors.len()
    }

    /// The color in slot `k`, or `None` past the end.
    pub fn color(&self, k: usize) -> (c: Option<Hsl>)
        ensures
            c == (if k < self@.len() { Some(self@[k as int]) } else { None::<Hsl> }),
    {
        if k < self.colors.len() {
            Some(self.colors[k])
        } else {
            None
        }
    }

    /// The slot of the material of color `color`, or `None` where no level has it.
    pub fn slot(&self, color: Hsl) -> (k: Option<usize>)
        ensures
            match k {
                Some(k) => k < self@.len() && self@[k as int] == color,
                None => !has_color(self@, color),
            },
    {
        find_color(&self.colors, color)
    }
}

} // verus!
