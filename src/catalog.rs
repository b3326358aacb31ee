//! The tier catalog: two stages of ten levels, each level a color and a radius
//! derived from its stage and index alone.
use vstd::prelude::*;
use crate::geometry::{
    lemma_radius_of_area_fits, lemma_radius_of_area_monotonic, radius_for_area, radius_of_area,
};

verus! {

/// Number of levels in each stage.
pub const LEVELS_PER_STAGE: usize = 10;

/// Number of stages in the catalog.
pub const STAGE_COUNT: usize = 2;

/// Hue distance, in degrees, between consecutive levels of a stage.
pub const HUE_STEP: u32 = 36;

/// Hue shift, in degrees, of each stage over the one before it: half a step.
pub const STAGE_HUE_OFFSET: u32 = 18;

/// Degrees in a full turn of the color wheel.
pub const FULL_TURN: u32 = 360;

/// Saturation of every catalog color, in percent.
pub const SATURATION: u32 = 100;

/// Lightness of every catalog color, in percent.
pub const LIGHTNESS: u32 = 50;

/// A color given by hue (whole degrees), saturation and lightness (percent).
#[derive(Clone, Copy, Debug, PartialEq, Eq, Structural)]
pub struct Hsl {
    pub hue: u32,
    pub saturation: u32,
    pub lightness: u32,
}

/// One level of a stage: its color and its radius in thousandths of a unit.
#[derive(Clone, Copy, Debug, PartialEq, Eq, Structural)]
pub struct Level {
    pub color: Hsl,
    pub radius: u32,
}

/// The hue of level `index` of stage `stage`:
/// `(index + stage / 2) * HUE_STEP mod FULL_TURN`.
pub open spec fn level_hue(stage: nat, index: nat) -> nat {
    ((index * HUE_STEP + stage * STAGE_HUE_OFFSET) % (FULL_TURN as int)) as nat
}

/// The color of level `index` of stage `stage`.
pub open spec fn level_color(stage: nat, index: nat) -> Hsl {
    Hsl { hue: level_hue(stage, index) as u32, saturation: SATURATION, lightness: LIGHTNESS }
}

/// The radius of level `index`, of any stage: the circle's area is `index`
/// square units, so the radius is `sqrt(index / pi)` (in thousandths, rounded down).
/// Level 0 keeps radius zero; its circle is drawn with the floor of
/// `MIN_VERTICES` vertices.
pub open spec fn level_radius(index: nat) -> nat {
    radius_of_area(index)
}

/// Level `index` of stage `stage`.
pub open spec fn level_model(stage: nat, index: nat) -> Level {
    Level { color: level_color(stage, index), radius: level_radius(index) as u32 }
}

/// The whole catalog: `STAGE_COUNT` stages of `LEVELS_PER_STAGE` levels.
pub open spec fn catalog_model() -> Seq<Seq<Level>> {
    Seq::new(
        STAGE_COUNT as nat,
        |s: int| Seq::new(LEVELS_PER_STAGE as nat, |i: int| level_model(s as nat, i as nat)),
    )
}

/// The immutable catalog of stages and their levels.
#[derive(Debug, PartialEq, Eq)]
pub struct Catalog {
    stages: Vec<Vec<Level>>,
}

impl View for Catalog {
    type V = Seq<Seq<Level>>;

    closed spec fn view(&self) -> Seq<Seq<Level>> {
        self.stages@.map_values(|s: Vec<Level>| s@)
    }
}

/// The color of level `index` of stage `stage`.
pub fn color_for(stage: u32, index: u32) -> (c: Hsl)
    ensures
        c == level_color(stage as nat, index as nat),
{
    assert(index as u64 * HUE_STEP as u64 <= 0xffff_ffff * 36) by (nonlinear_arith)
        requires
            index <= 0xffff_ffff,
            HUE_STEP == 36,
    ;
    assert(stage as u64 * STAGE_HUE_OFFSET as u64 <= 0xffff_ffff * 18) by (nonlinear_arith)
        requires
            stage <= 0xffff_ffff,
            STAGE_HUE_OFFSET == 18,
    ;
    let hue: u64 = (index as u64 * HUE_STEP as u64 + stage as u64 * STAGE_HUE_OFFSET as u64)
        % FULL_TURN as u64;
    Hsl { hue: hue as u32, saturation: SATURATION, lightness: LIGHTNESS }
}

/// Level `index` of stage `stage`.
pub fn level_for(stage: u32, index: u32) -> (l: Level)
    ensures
        l == level_model(stage as nat, index as nat),
{
    Level { color: color_for(stage, index), radius: radius_for_area(index) }
}

/// Builds the catalog from the fixed constants.
pub fn build_catalog() -> (c: Catalog)
    ensures
        c@ == catalog_model(),
{
    let mut stages: Vec<Vec<Level>> = Vec::new();
    let mut s: usize = 0;
    while s < STAGE_COUNT
        invariant
            s <= STAGE_COUNT,
            stages@.len() == s,
            forall|t: int| 0 <= t < s ==> #[trigger] stages@[t]@ == catalog_model()[t],
        decreases STAGE_COUNT - s,
    {
        let mut levels: Vec<Level> = Vec::new();
        let mut i: usize = 0;
        while i < LEVELS_PER_STAGE
            invariant
                s < STAGE_COUNT,
                i <= LEVELS_PER_STAGE,
                levels@.len() == i,
                forall|j: int| 0 <= j < i ==> #[trigger] levels@[j] == level_model(s as nat, j as nat),
            decreases LEVELS_PER_STAGE - i,
        {
            levels.push(level_for(s as u32, i as u32));
            i = i + 1;
        }
        assert(levels@ =~= catalog_model()[s as int]);
        stages.push(levels);
        s = s + 1;
    }
    let c = Catalog { stages };
    assert(c@ =~= catalog_model());
    c
}

impl Catalog {
    /// Number of stages.
    pub fn stage_count(&self) -> (n: usize)
        ensures
            n == self@.len(),
    {
        self.stages.len()
    }

    /// Number of levels in stage `stage`, or `None` where there is no such stage.
    pub fn stage_len(&self, stage: usize) -> (n: Option<usize>)
        ensures
            match n {
                Some(k) => stage < self@.len() && k == self@[stage as int].len(),
                None => stage >= self@.len(),
            },
    {
        if stage < self.stages.len() {
            Some(self.stages[stage].len())
        } else {
            None
        }
    }

    /// Level `index` of stage `stage`, or `None` where the catalog has no such level.
    pub fn level(&self, stage: usize, index: usize) -> (l: Option<Level>)
        ensures
            l == (if stage < self@.len() && index < self@[stage as int].len() {
                Some(self@[stage as int][index as int])
            } else {
                None::<Level>
            }),
    {
        if stage < self.stages.len() && index < self.stages[stage].len() {
            Some(self.stages[stage][index])
        } else {
            None
        }
    }
}

/// On every stage, the radius of a level is `level_radius` of its index: two
/// stages hold the same radius at the same index.
pub proof fn lemma_radius_depends_on_index_only(s: int, t: int, i: int)
    requires
        0 <= s < STAGE_COUNT,
        0 <= t < STAGE_COUNT,
        0 <= i < LEVELS_PER_STAGE,
    ensures
        catalog_model()[s][i].radius == level_radius(i as nat),
        catalog_model()[s][i].radius == catalog_model()[t][i].radius,
{
    lemma_radius_of_area_fits(i as nat);
}

/// The second stage's hue at each index is the first stage's hue turned by
/// `STAGE_HUE_OFFSET` degrees, modulo a full turn.
pub proof fn lemma_second_stage_hue_offset(i: nat)
    ensures
        level_hue(1, i) == (level_hue(0, i) + STAGE_HUE_OFFSET) % (FULL_TURN as int),
        i < LEVELS_PER_STAGE ==> catalog_model()[1][i as int].color.hue == (
        catalog_model()[0][i as int].color.hue + STAGE_HUE_OFFSET) % (FULL_TURN as int),
{
    vstd::arithmetic::div_mod::lemma_add_mod_noop(
        (i * HUE_STEP) as int,
        STAGE_HUE_OFFSET as int,
        FULL_TURN as int,
    );
    vstd::arithmetic::div_mod::lemma_mod_twice(STAGE_HUE_OFFSET as int, FULL_TURN as int);
}

/// Within a stage, radius never shrinks from one level to the next.
pub proof fn lemma_radius_non_decreasing(s: int, i: int)
    requires
        0 <= s < STAGE_COUNT,
        0 <= i,
        i + 1 < LEVELS_PER_STAGE,
    ensures
        catalog_model()[s][i].radius <= catalog_model()[s][i + 1].radius,
{
    lemma_radius_of_area_fits(i as nat);
    lemma_radius_of_area_fits((i + 1) as nat);
    lemma_radius_of_area_monotonic(i as nat, (i + 1) as nat);
}

/// Building the catalog twice gives catalogs equal level by level.
pub proof fn lemma_build_catalog_deterministic(a: &Catalog, b: &Catalog)
    requires
        a@ == catalog_model(),
        b@ == catalog_model(),
    ensures
        a@ == b@,
        forall|s: int, i: int|
            0 <= s < a@.len() && 0 <= i < a@[s].len() ==> #[trigger] a@[s][i] == b@[s][i],
{
}

} // verus!
