//! Geology: provinces, strata stacks, base rock and mineral deposits.

use vstd::prelude::*;
use crate::grid::Grid2D;
use crate::rng::{hash_2d, spec_hash_2d, UNIT};
use crate::scalar::Scalar;
use crate::params::GenerationParams;
use crate::state::{
    fits,
    GeologicProvince,
    Mineral,
    RockType,
    StrataLayer,
    WorldState,
    MINERAL_COUNT,
};

verus! {

/// Salt of the draw that tells volcanic arcs from orogens.
pub const PROVINCE_SALT: u64 = 0xABCD_EF01;

/// Salt of the draws that shape the strata.
pub const STRATA_SALT: u64 = 0x5511_5511;

/// Salt of the draw that decides where a fault swaps the top strata.
pub const FAULT_SALT: u64 = 0xDEAD_BEEF;

/// Bit pattern of `0.03`: land with a larger local slope is steep.
pub const STEEP_SLOPE_BITS: u32 = 0x3CF5_C28F;

/// `0.72 · 2^24`: steep uplands with a larger draw are volcanic arcs.
pub const VOLCANIC_DRAW: u32 = 12_079_596;

/// `0.6 · 2^24`, as binary32 rounds it.
pub const DRAW_060: u32 = 10_066_330;

/// `0.66 · 2^24`, as binary32 rounds it.
pub const DRAW_066: u32 = 11_072_963;

/// `0.52 · 2^24`, as binary32 rounds it.
pub const DRAW_052: u32 = 8_724_152;

/// `0.25 · 2^24`.
pub const DRAW_025: u32 = 4_194_304;

/// `0.55 · 2^24`, as binary32 rounds it.
pub const DRAW_055: u32 = 9_227_469;

/// The draw of a cell under `seed`.
pub open spec fn cell_draw(seed: u64, x: int, y: int) -> u32 {
    spec_hash_2d(seed, x as i32, y as i32)
}

/// The draw of cell `(x, y)` under `seed`: a numerator over 2^24.
pub fn draw(seed: u64, x: usize, y: usize) -> (r: u32)
    ensures
        r == cell_draw(seed, x as int, y as int),
        r < UNIT,
{
    let xi: i32 = #[verifier::truncate] (x as i32);
    let yi: i32 = #[verifier::truncate] (y as i32);
    hash_2d(seed, xi, yi)
}

/// The province of a cell: oceanic under the ocean; on steep land above the
/// upland line a volcanic arc where the draw exceeds 0.72 and an orogen
/// elsewhere; a basin below the lowland line; a craton otherwise.
pub open spec fn province_of(
    ocean: bool,
    slope: Scalar,
    elev: Scalar,
    upland_line: Scalar,
    lowland_line: Scalar,
    noise: u32,
) -> GeologicProvince {
    if ocean {
        GeologicProvince::Oceanic
    } else if slope.spec_gt(Scalar { bits: STEEP_SLOPE_BITS }) && elev.spec_gt(upland_line) {
        if noise > VOLCANIC_DRAW {
            GeologicProvince::VolcanicArc
        } else {
            GeologicProvince::Orogen
        }
    } else if elev.spec_lt(lowland_line) {
        GeologicProvince::Basin
    } else {
        GeologicProvince::Craton
    }
}

/// Classifies one cell.
pub fn classify_province(
    ocean: bool,
    slope: Scalar,
    elev: Scalar,
    upland_line: Scalar,
    lowland_line: Scalar,
    noise: u32,
) -> (p: GeologicProvince)
    ensures
        p == province_of(ocean, slope, elev, upland_line, lowland_line, noise),
        p == GeologicProvince::Oceanic <==> ocean,
{
    let steep = Scalar { bits: STEEP_SLOPE_BITS };
    if ocean {
        GeologicProvince::Oceanic
    } else if slope.gt(steep) && elev.gt(upland_line) {
        if noise > VOLCANIC_DRAW {
            GeologicProvince::VolcanicArc
        } else {
            GeologicProvince::Orogen
        }
    } else if elev.lt(lowland_line) {
        GeologicProvince::Basin
    } else {
        GeologicProvince::Craton
    }
}

/// What province tagging reads. `slope` holds, per cell, the largest height
/// difference to a neighbour; the two lines are elevations.
pub struct ProvinceSurvey<'a> {
    pub elevation: &'a Grid2D<Scalar>,
    pub ocean_mask: &'a Grid2D<bool>,
    pub slope: &'a Grid2D<Scalar>,
    pub upland_line: Scalar,
    pub lowland_line: Scalar,
    pub seed: u64,
}

impl<'a> ProvinceSurvey<'a> {
    /// The rasters are well formed and agree in shape.
    pub open spec fn wf(&self) -> bool {
        &&& self.elevation.wf()
        &&& self.ocean_mask.wf()
        &&& self.slope.wf()
        &&& self.ocean_mask.same_shape(self.elevation)
        &&& self.slope.same_shape(self.elevation)
    }

    /// The province of cell `(x, y)`.
    pub open spec fn province_at(&self, x: int, y: int) -> GeologicProvince {
        province_of(
            self.ocean_mask.at(x, y),
            self.slope.at(x, y),
            self.elevation.at(x, y),
            self.upland_line,
            self.lowland_line,
            cell_draw(self.seed ^ PROVINCE_SALT, x, y),
        )
    }
}

/// Tags every cell with its province.
pub fn assign_provinces(survey: &ProvinceSurvey) -> (province: Grid2D<GeologicProvince>)
    requires
        survey.wf(),
    ensures
        province.wf(),
        province.same_shape(survey.elevation),
        forall|x: int, y: int|
            survey.elevation.has(x, y) ==> #[trigger] province.at(x, y) == survey.province_at(
                x,
                y,
            ),
{
    let w: usize = survey.elevation.width();
    let h: usize = survey.elevation.height();
    let n: usize = survey.elevation.len();
    let mut province: Grid2D<GeologicProvince> = Grid2D::new(w, h, GeologicProvince::Craton);
    let mut y: usize = 0;
    while y < h
        invariant
            y <= h,
            survey.wf(),
            w == survey.elevation.spec_width(),
            h == survey.elevation.spec_height(),
            province.wf(),
            province.same_shape(survey.elevation),
            forall|x2: int, y2: int|
                survey.elevation.has(x2, y2) && y2 < y ==> #[trigger] province.at(x2, y2)
                    == survey.province_at(x2, y2),
        decreases h - y,
    {
        let mut x: usize = 0;
        while x < w
            invariant
                y < h,
                x <= w,
                survey.wf(),
                w == survey.elevation.spec_width(),
                h == survey.elevation.spec_height(),
                province.wf(),
                province.same_shape(survey.elevation),
                forall|x2: int, y2: int|
                    survey.elevation.has(x2, y2) && (y2 < y || (y2 == y && x2 < x))
                        ==> #[trigger] province.at(x2, y2) == survey.province_at(x2, y2),
            decreases w - x,
        {
            let noise: u32 = draw(survey.seed ^ PROVINCE_SALT, x, y);
            let p = classify_province(
                *survey.ocean_mask.get(x, y),
                *survey.slope.get(x, y),
                *survey.elevation.get(x, y),
                survey.upland_line,
                survey.lowland_line,
                noise,
            );
            province.set(x, y, p);
            x += 1;
        }
        y += 1;
    }
    province
}

/// The rock at the surface of a province.
pub open spec fn base_rock_of(province: GeologicProvince) -> RockType {
    match province {
        GeologicProvince::Oceanic => RockType::Basalt,
        GeologicProvince::Craton => RockType::Granite,
        GeologicProvince::Orogen => RockType::Schist,
        GeologicProvince::Basin => RockType::Shale,
        GeologicProvince::VolcanicArc => RockType::Rhyolite,
    }
}

/// The rock at the surface of a province.
pub fn base_rock(province: GeologicProvince) -> (rock: RockType)
    ensures
        rock == base_rock_of(province),
{
    match province {
        GeologicProvince::Oceanic => RockType::Basalt,
        GeologicProvince::Craton => RockType::Granite,
        GeologicProvince::Orogen => RockType::Schist,
        GeologicProvince::Basin => RockType::Shale,
        GeologicProvince::VolcanicArc => RockType::Rhyolite,
    }
}

/// The rock of stratum `layer` in a province, given the stratum's draw `n`.
///
/// Oceanic crust is basalt at the top and wherever `n` exceeds 0.6, gabbro
/// elsewhere. A craton has granite in every third stratum, and between them
/// gneiss where `n` exceeds 0.66 and sandstone elsewhere. An orogen is schist
/// where `n` exceeds 0.52 and gneiss elsewhere. A basin is limestone where
/// `n` exceeds 0.6, shale where it exceeds 0.25 and sandstone elsewhere. A
/// volcanic arc is rhyolite where `n` exceeds 0.55 and basalt elsewhere.
pub open spec fn rock_of_layer(province: GeologicProvince, layer: u8, n: u32) -> RockType {
    match province {
        GeologicProvince::Oceanic => if layer == 0 || n > DRAW_060 {
            RockType::Basalt
        } else {
            RockType::Gabbro
        },
        GeologicProvince::Craton => if layer % 3 == 0 {
            RockType::Granite
        } else if n > DRAW_066 {
            RockType::Gneiss
        } else {
            RockType::Sandstone
        },
        GeologicProvince::Orogen => if n > DRAW_052 {
            RockType::Schist
        } else {
            RockType::Gneiss
        },
        GeologicProvince::Basin => if n > DRAW_060 {
            RockType::Limestone
        } else if n > DRAW_025 {
            RockType::Shale
        } else {
            RockType::Sandstone
        },
        GeologicProvince::VolcanicArc => if n > DRAW_055 {
            RockType::Rhyolite
        } else {
            RockType::Basalt
        },
    }
}

/// The rock of stratum `layer` in a province, given the stratum's draw `n`.
pub fn layer_rock(province: GeologicProvince, layer: u8, n: u32) -> (rock: RockType)
    ensures
        rock == rock_of_layer(province, layer, n),
{
    match province {
        GeologicProvince::Oceanic => {
            if layer == 0 || n > DRAW_060 {
                RockType::Basalt
            } else {
                RockType::Gabbro
            }
        },
        GeologicProvince::Craton => {
            if layer % 3 == 0 {
                RockType::Granite
            } else if n > DRAW_066 {
                RockType::Gneiss
            } else {
                RockType::Sandstone
            }
        },
        GeologicProvince::Orogen => {
            if n > DRAW_052 {
                RockType::Schist
            } else {
                RockType::Gneiss
            }
        },
        GeologicProvince::Basin => {
            if n > DRAW_060 {
                RockType::Limestone
            } else if n > DRAW_025 {
                RockType::Shale
            } else {
                RockType::Sandstone
            }
        },
        GeologicProvince::VolcanicArc => {
            if n > DRAW_055 {
                RockType::Rhyolite
            } else {
                RockType::Basalt
            }
        },
    }
}

/// Stratum `l` of the unfaulted stack of a cell.
pub open spec fn stratum(
    seed: u64,
    province: GeologicProvince,
    l: int,
    x: int,
    y: int,
) -> StrataLayer {
    let n = cell_draw(seed ^ STRATA_SALT ^ (l as u64), x, y);
    StrataLayer { rock: rock_of_layer(province, l as u8, n), grain: n }
}

/// The unfaulted stack of a cell, top first.
pub open spec fn plain_stack(
    seed: u64,
    layers: u8,
    province: GeologicProvince,
    x: int,
    y: int,
) -> Seq<StrataLayer> {
    Seq::new(layers as nat, |l: int| stratum(seed, province, l, x, y))
}

/// A fault swaps the two topmost strata of a cell where faulting is on, the
/// cell's fault draw exceeds `fault_cut`, and the stack has two strata.
pub open spec fn is_faulted(
    seed: u64,
    layers: u8,
    fault_strength: Scalar,
    fault_cut: i64,
    x: int,
    y: int,
) -> bool {
    &&& fault_strength.spec_gt(Scalar { bits: 0 })
    &&& cell_draw(seed ^ FAULT_SALT, x, y) > fault_cut
    &&& layers > 1
}

/// The stack of a cell, top first.
pub open spec fn stack_of(
    seed: u64,
    layers: u8,
    province: GeologicProvince,
    fault_strength: Scalar,
    fault_cut: i64,
    x: int,
    y: int,
) -> Seq<StrataLayer> {
    let plain = plain_stack(seed, layers, province, x, y);
    if is_faulted(seed, layers, fault_strength, fault_cut, x, y) {
        plain.update(0, plain[1]).update(1, plain[0])
    } else {
        plain
    }
}

/// Builds the stack of one cell.
pub fn build_stack(
    seed: u64,
    layers: u8,
    province: GeologicProvince,
    fault_strength: Scalar,
    fault_cut: i64,
    x: usize,
    y: usize,
) -> (stack: Vec<StrataLayer>)
    ensures
        stack@ == stack_of(seed, layers, province, fault_strength, fault_cut, x as int, y as int),
        stack@.len() == layers,
{
    let mut stack: Vec<StrataLayer> = Vec::new();
    let mut l: u8 = 0;
    while l < layers
        invariant
            l <= layers,
            stack@.len() == l,
            forall|j: int|
                0 <= j < l ==> stack@[j] == stratum(seed, province, j, x as int, y as int),
        decreases layers - l,
    {
        let n: u32 = draw(seed ^ STRATA_SALT ^ (l as u64), x, y);
        stack.push(StrataLayer { rock: layer_rock(province, l, n), grain: n });
        l += 1;
    }
    assert(stack@ =~= plain_stack(seed, layers, province, x as int, y as int));
    let zero = Scalar { bits: 0 };
    if fault_strength.gt(zero) {
        let fault: u32 = draw(seed ^ FAULT_SALT, x, y);
        if fault as i64 > fault_cut && stack.len() > 1 {
            let top: StrataLayer = stack[0];
            let second: StrataLayer = stack[1];
            stack[0] = second;
            stack[1] = top;
        }
    }
    stack
}

/// Gives every cell its base rock and its stack of `layers` strata.
pub fn assign_strata_and_rock(
    province: &Grid2D<GeologicProvince>,
    seed: u64,
    layers: u8,
    fault_strength: Scalar,
    fault_cut: i64,
) -> (out: (Grid2D<RockType>, Grid2D<Vec<StrataLayer>>))
    requires
        province.wf(),
    ensures
        out.0.wf(),
        out.1.wf(),
        out.0.same_shape(province),
        out.1.same_shape(province),
        forall|x: int, y: int|
            province.has(x, y) ==> #[trigger] out.0.at(x, y) == base_rock_of(province.at(x, y)),
        forall|x: int, y: int|
            province.has(x, y) ==> (#[trigger] out.1.at(x, y))@ == stack_of(
                seed,
                layers,
                province.at(x, y),
                fault_strength,
                fault_cut,
                x,
                y,
            ),
{
    let w: usize = province.width();
    let h: usize = province.height();
    let n: usize = province.len();
    let mut rock: Grid2D<RockType> = Grid2D::new(w, h, RockType::Granite);
    let mut strata: Grid2D<Vec<StrataLayer>> = Grid2D::new(w, h, Vec::new());
    let mut y: usize = 0;
    while y < h
        invariant
            y <= h,
            province.wf(),
            w == province.spec_width(),
            h == province.spec_height(),
            rock.wf(),
            strata.wf(),
            rock.same_shape(province),
            strata.same_shape(province),
            forall|x2: int, y2: int|
                province.has(x2, y2) && y2 < y ==> #[trigger] rock.at(x2, y2) == base_rock_of(
                    province.at(x2, y2),
                ),
            forall|x2: int, y2: int|
                province.has(x2, y2) && y2 < y ==> (#[trigger] strata.at(x2, y2))@ == stack_of(
                    seed,
                    layers,
                    province.at(x2, y2),
                    fault_strength,
                    fault_cut,
                    x2,
                    y2,
                ),
        decreases h - y,
    {
        let mut x: usize = 0;
        while x < w
            invariant
                y < h,
                x <= w,
                province.wf(),
                w == province.spec_width(),
                h == province.spec_height(),
                rock.wf(),
                strata.wf(),
                rock.same_shape(province),
                strata.same_shape(province),
                forall|x2: int, y2: int|
                    province.has(x2, y2) && (y2 < y || (y2 == y && x2 < x))
                        ==> #[trigger] rock.at(x2, y2) == base_rock_of(province.at(x2, y2)),
                forall|x2: int, y2: int|
                    province.has(x2, y2) && (y2 < y || (y2 == y && x2 < x)) ==> (
                    #[trigger] strata.at(x2, y2))@ == stack_of(
                        seed,
                        layers,
                        province.at(x2, y2),
                        fault_strength,
                        fault_cut,
                        x2,
                        y2,
                    ),
            decreases w - x,
        {
            let p: GeologicProvince = *province.get(x, y);
            rock.set(x, y, base_rock(p));
            let stack = build_stack(seed, layers, p, fault_strength, fault_cut, x, y);
            strata.set(x, y, stack);
            x += 1;
        }
        y += 1;
    }
    (rock, strata)
}

/// Whether `rock` is a host of `mineral`.
pub open spec fn hosts(mineral: Mineral, rock: RockType) -> bool {
    match mineral {
        Mineral::Iron => rock == RockType::Basalt || rock == RockType::Gabbro,
        Mineral::Copper => rock == RockType::Rhyolite || rock == RockType::Basalt,
        Mineral::Gold => rock == RockType::Schist || rock == RockType::Gneiss,
        Mineral::Tin => rock == RockType::Granite,
        Mineral::Coal => rock == RockType::Shale || rock == RockType::Sandstone,
        Mineral::Gem => rock == RockType::Schist || rock == RockType::Gneiss || rock
            == RockType::Rhyolite,
    }
}

/// Whether `province` favours `mineral`.
pub open spec fn favours(province: GeologicProvince, mineral: Mineral) -> bool {
    match mineral {
        Mineral::Iron => province == GeologicProvince::Oceanic || province
            == GeologicProvince::VolcanicArc,
        Mineral::Copper => province == GeologicProvince::VolcanicArc,
        Mineral::Gold => province == GeologicProvince::Orogen,
        Mineral::Tin => province == GeologicProvince::Craton,
        Mineral::Coal => province == GeologicProvince::Basin,
        Mineral::Gem => province == GeologicProvince::Orogen,
    }
}

/// What a host rock adds to the score of `mineral`, in hundredths.
pub open spec fn host_bonus_of(mineral: Mineral, rock: RockType) -> u8 {
    if hosts(mineral, rock) {
        match mineral {
            Mineral::Iron => 16,
            Mineral::Copper => 18,
            Mineral::Gold => 17,
            Mineral::Tin => 14,
            Mineral::Coal => 20,
            Mineral::Gem => 12,
        }
    } else {
        0
    }
}

/// What a favourable province adds to the score of `mineral`, in hundredths.
pub open spec fn province_bonus_of(mineral: Mineral, province: GeologicProvince) -> u8 {
    if favours(province, mineral) {
        match mineral {
            Mineral::Iron => 12,
            Mineral::Copper => 13,
            Mineral::Gold => 14,
            Mineral::Tin => 10,
            Mineral::Coal => 16,
            Mineral::Gem => 10,
        }
    } else {
        0
    }
}

/// The score a cell must exceed to hold `mineral` where ore richness is
/// zero, in hundredths.
pub open spec fn threshold_of(mineral: Mineral) -> u8 {
    match mineral {
        Mineral::Iron => 72,
        Mineral::Copper => 78,
        Mineral::Gold => 90,
        Mineral::Tin => 82,
        Mineral::Coal => 74,
        Mineral::Gem => 94,
    }
}

/// What a host rock adds to the score of `mineral`, in hundredths.
pub fn host_bonus(mineral: Mineral, rock: RockType) -> (pct: u8)
    ensures
        pct == host_bonus_of(mineral, rock),
        pct <= 20,
{
    match mineral {
        Mineral::Iron => match rock {
            RockType::Basalt => 16,
            RockType::Gabbro => 16,
            _ => 0,
        },
        Mineral::Copper => match rock {
            RockType::Rhyolite => 18,
            RockType::Basalt => 18,
            _ => 0,
        },
        Mineral::Gold => match rock {
            RockType::Schist => 17,
            RockType::Gneiss => 17,
            _ => 0,
        },
        Mineral::Tin => match rock {
            RockType::Granite => 14,
            _ => 0,
        },
        Mineral::Coal => match rock {
            RockType::Shale => 20,
            RockType::Sandstone => 20,
            _ => 0,
        },
        Mineral::Gem => match rock {
            RockType::Schist => 12,
            RockType::Gneiss => 12,
            RockType::Rhyolite => 12,
            _ => 0,
        },
    }
}

/// What a favourable province adds to the score of `mineral`, in hundredths.
pub fn province_bonus(mineral: Mineral, province: GeologicProvince) -> (pct: u8)
    ensures
        pct == province_bonus_of(mineral, province),
        pct <= 16,
{
    match mineral {
        Mineral::Iron => match province {
            GeologicProvince::Oceanic => 12,
            GeologicProvince::VolcanicArc => 12,
            _ => 0,
        },
        Mineral::Copper => match province {
            GeologicProvince::VolcanicArc => 13,
            _ => 0,
        },
        Mineral::Gold => match province {
            GeologicProvince::Orogen => 14,
            _ => 0,
        },
        Mineral::Tin => match province {
            GeologicProvince::Craton => 10,
            _ => 0,
        },
        Mineral::Coal => match province {
            GeologicProvince::Basin => 16,
            _ => 0,
        },
        Mineral::Gem => match province {
            GeologicProvince::Orogen => 10,
            _ => 0,
        },
    }
}

/// The score a cell must exceed to hold `mineral` where ore richness is
/// zero, in hundredths.
pub fn threshold(mineral: Mineral) -> (pct: u8)
    ensures
        pct == threshold_of(mineral),
        72 <= pct <= 94,
{
    match mineral {
        Mineral::Iron => 72,
        Mineral::Copper => 78,
        Mineral::Gold => 90,
        Mineral::Tin => 82,
        Mineral::Coal => 74,
        Mineral::Gem => 94,
    }
}

/// The draw of `mineral` at a cell: the seed is salted with the mineral's
/// tag in its upper half.
pub open spec fn mineral_draw_of(seed: u64, mineral: Mineral, x: int, y: int) -> u32 {
    cell_draw(seed ^ ((mineral.tag() as u64) << 32), x, y)
}

/// The draw of `mineral` at cell `(x, y)`: a numerator over 2^24.
pub fn mineral_draw(seed: u64, mineral: Mineral, x: usize, y: usize) -> (r: u32)
    ensures
        r == mineral_draw_of(seed, mineral, x as int, y as int),
        r < UNIT,
{
    let tag: u64 = mineral.as_u8() as u64;
    assert(tag << 32 == ((mineral.tag() as u64) << 32));
    draw(seed ^ (tag << 32), x, y)
}

/// Marks the cells whose score exceeds `cut`.
pub fn mark_deposits(score: &Grid2D<Scalar>, cut: Scalar) -> (mask: Grid2D<bool>)
    requires
        score.wf(),
    ensures
        mask.wf(),
        mask.same_shape(score),
        forall|x: int, y: int|
            score.has(x, y) ==> #[trigger] mask.at(x, y) == score.at(x, y).spec_gt(cut),
{
    let w: usize = score.width();
    let h: usize = score.height();
    let n: usize = score.len();
    let mut mask: Grid2D<bool> = Grid2D::new(w, h, false);
    let mut y: usize = 0;
    while y < h
        invariant
            y <= h,
            score.wf(),
            w == score.spec_width(),
            h == score.spec_height(),
            mask.wf(),
            mask.same_shape(score),
            forall|x2: int, y2: int|
                score.has(x2, y2) && y2 < y ==> #[trigger] mask.at(x2, y2) == score.at(
                    x2,
                    y2,
                ).spec_gt(cut),
        decreases h - y,
    {
        let mut x: usize = 0;
        while x < w
            invariant
                y < h,
                x <= w,
                score.wf(),
                w == score.spec_width(),
                h == score.spec_height(),
                mask.wf(),
                mask.same_shape(score),
                forall|x2: int, y2: int|
                    score.has(x2, y2) && (y2 < y || (y2 == y && x2 < x)) ==> #[trigger] mask.at(
                        x2,
                        y2,
                    ) == score.at(x2, y2).spec_gt(cut),
            decreases w - x,
        {
            let present: bool = score.get(x, y).gt(cut);
            mask.set(x, y, present);
            x += 1;
        }
        y += 1;
    }
    mask
}

/// Runs the first part of the stage: tags the provinces, then gives every
/// cell its base rock and its strata. `slope` holds the local slope of every
/// cell, the two lines are the elevations that bound uplands and lowlands,
/// and `fault_cut` is the fault draw that a faulted cell exceeds. Only the
/// province, rock and strata layers change.
pub fn run(
    state: &mut WorldState,
    params: &GenerationParams,
    slope: &Grid2D<Scalar>,
    upland_line: Scalar,
    lowland_line: Scalar,
    fault_cut: i64,
)
    requires
        old(state).wf(),
        fits(slope, old(state).width, old(state).height),
    ensures
        final(state).wf(),
        *final(state) == (WorldState {
            geologic_province: final(state).geologic_province,
            rock_type: final(state).rock_type,
            strata: final(state).strata,
            ..*old(state)
        }),
        forall|x: int, y: int|
            old(state).elevation.has(x, y) ==> #[trigger] final(state).geologic_province.at(x, y)
                == (ProvinceSurvey {
                elevation: &old(state).elevation,
                ocean_mask: &old(state).ocean_mask,
                slope,
                upland_line,
                lowland_line,
                seed: params.seed,
            }).province_at(x, y),
        forall|x: int, y: int|
            old(state).elevation.has(x, y) ==> #[trigger] final(state).rock_type.at(x, y)
                == base_rock_of(final(state).geologic_province.at(x, y)),
        forall|x: int, y: int|
            old(state).elevation.has(x, y) ==> (#[trigger] final(state).strata.at(x, y))@
                == stack_of(
                params.seed,
                if params.geology.strata_layers < 3 {
                    3
                } else {
                    params.geology.strata_layers
                },
                final(state).geologic_province.at(x, y),
                params.geology.fault_strength,
                fault_cut,
                x,
                y,
            ),
{
    let survey = ProvinceSurvey {
        elevation: &state.elevation,
        ocean_mask: &state.ocean_mask,
        slope,
        upland_line,
        lowland_line,
        seed: params.seed,
    };
    let province = assign_provinces(&survey);
    let layers: u8 = params.effective_strata_layers();
    let (rock, strata) = assign_strata_and_rock(
        &province,
        params.seed,
        layers,
        params.geology.fault_strength,
        fault_cut,
    );
    state.geologic_province = province;
    state.rock_type = rock;
    state.strata = strata;
}

/// Runs the second part of the stage: a cell holds mineral `m` where its
/// score for `m` exceeds the cut for `m`. Scores and cuts are listed by
/// mineral tag. Only the mineral masks change.
pub fn assign_minerals(state: &mut WorldState, scores: &Vec<Grid2D<Scalar>>, cuts: &Vec<Scalar>)
    requires
        old(state).wf(),
        scores@.len() == MINERAL_COUNT,
        cuts@.len() == MINERAL_COUNT,
        forall|m: int|
            0 <= m < MINERAL_COUNT ==> fits(#[trigger] &scores@[m], old(state).width, old(state).height),
    ensures
        final(state).wf(),
        *final(state) == (WorldState { mineral_masks: final(state).mineral_masks, ..*old(state) }),
        forall|m: int, x: int, y: int|
            0 <= m < MINERAL_COUNT && scores@[m].has(x, y)
                ==> #[trigger] final(state).mineral_masks@[m].at(x, y)
                == scores@[m].at(x, y).spec_gt(cuts@[m]),
{
    let mut masks: Vec<Grid2D<bool>> = Vec::new();
    let mut m: usize = 0;
    while m < MINERAL_COUNT
        invariant
            m <= MINERAL_COUNT,
            scores@.len() == MINERAL_COUNT,
            cuts@.len() == MINERAL_COUNT,
            masks@.len() == m,
            forall|k: int|
                0 <= k < MINERAL_COUNT ==> fits(#[trigger] &scores@[k], state.width, state.height),
            forall|k: int| 0 <= k < m ==> fits(#[trigger] &masks@[k], state.width, state.height),
            forall|k: int, x: int, y: int|
                0 <= k < m && scores@[k].has(x, y) ==> #[trigger] masks@[k].at(x, y) == scores@[k].at(
                    x,
                    y,
                ).spec_gt(cuts@[k]),
        decreases MINERAL_COUNT - m,
    {
        let mask = mark_deposits(&scores[m], cuts[m]);
        masks.push(mask);
        m += 1;
    }
    state.mineral_masks = masks;
}

} // verus!
