//! Biome classification and majority-vote smoothing.

use vstd::prelude::*;
use crate::grid::{lemma_index_cell, Grid2D};
use crate::neighbors::{neighbor, step, DIR_COUNT};
use crate::params::GenerationParams;
use crate::scalar::Scalar;
use crate::state::{fits, Biome, WorldState, BIOME_COUNT};

verus! {

/// Bit pattern of `0.85`: wetter land is wetland.
pub const WETLAND_WETNESS_BITS: u32 = 0x3F59_999A;

/// Bit pattern of `-8.0`: colder land is polar.
pub const POLAR_TEMP_BITS: u32 = 0xC100_0000;

/// Bit pattern of `4.0`: colder land is boreal.
pub const BOREAL_TEMP_BITS: u32 = 0x4080_0000;

/// Bit pattern of `15.0`: colder land is temperate.
pub const TEMPERATE_TEMP_BITS: u32 = 0x4170_0000;

/// Bit pattern of `0.18`: drier polar land is polar desert.
pub const POLAR_DESERT_RAIN_BITS: u32 = 0x3E38_51EC;

/// Bit pattern of `0.35`: wetter boreal land is boreal forest.
pub const BOREAL_FOREST_RAIN_BITS: u32 = 0x3EB3_3333;

/// Bit pattern of `0.2`: drier temperate land is grassland.
pub const GRASSLAND_RAIN_BITS: u32 = 0x3E4C_CCCD;

/// Bit pattern of `0.45`: drier temperate land is mediterranean.
pub const MEDITERRANEAN_RAIN_BITS: u32 = 0x3EE6_6666;

/// Bit pattern of `0.16`: drier hot land is hot desert.
pub const HOT_DESERT_RAIN_BITS: u32 = 0x3E23_D70A;

/// Bit pattern of `0.38`: drier hot land is savanna.
pub const SAVANNA_RAIN_BITS: u32 = 0x3EC2_8F5C;

/// Bit pattern of `0.62`: drier hot land is seasonal forest.
pub const SEASONAL_FOREST_RAIN_BITS: u32 = 0x3F1E_B852;

/// The biome of land that is neither lake, wetland nor alpine, by
/// temperature in °C and normalised rainfall.
pub open spec fn climate_biome(temp_c: Scalar, rain: Scalar) -> Biome {
    if temp_c.spec_lt(Scalar { bits: POLAR_TEMP_BITS }) {
        if rain.spec_lt(Scalar { bits: POLAR_DESERT_RAIN_BITS }) {
            Biome::PolarDesert
        } else {
            Biome::Tundra
        }
    } else if temp_c.spec_lt(Scalar { bits: BOREAL_TEMP_BITS }) {
        if rain.spec_gt(Scalar { bits: BOREAL_FOREST_RAIN_BITS }) {
            Biome::BorealForest
        } else {
            Biome::Tundra
        }
    } else if temp_c.spec_lt(Scalar { bits: TEMPERATE_TEMP_BITS }) {
        if rain.spec_lt(Scalar { bits: GRASSLAND_RAIN_BITS }) {
            Biome::TemperateGrassland
        } else if rain.spec_lt(Scalar { bits: MEDITERRANEAN_RAIN_BITS }) {
            Biome::Mediterranean
        } else {
            Biome::TemperateForest
        }
    } else if rain.spec_lt(Scalar { bits: HOT_DESERT_RAIN_BITS }) {
        Biome::HotDesert
    } else if rain.spec_lt(Scalar { bits: SAVANNA_RAIN_BITS }) {
        Biome::Savanna
    } else if rain.spec_lt(Scalar { bits: SEASONAL_FOREST_RAIN_BITS }) {
        Biome::TropicalSeasonalForest
    } else {
        Biome::TropicalRainforest
    }
}

/// The biome of a cell: ocean at or below sea level, else lake where a lake
/// was identified, else wetland where wetness exceeds 0.85, else alpine above
/// the alpine line, else by climate.
pub open spec fn biome_of(
    temp_c: Scalar,
    rain: Scalar,
    elev: Scalar,
    wet: Scalar,
    sea_level: Scalar,
    alpine_line: Scalar,
    is_lake: bool,
) -> Biome {
    if elev.spec_le(sea_level) {
        Biome::Ocean
    } else if is_lake {
        Biome::Lake
    } else if wet.spec_gt(Scalar { bits: WETLAND_WETNESS_BITS }) {
        Biome::Wetland
    } else if elev.spec_gt(alpine_line) {
        Biome::Alpine
    } else {
        climate_biome(temp_c, rain)
    }
}

fn classify_climate(temp_c: Scalar, rain: Scalar) -> (b: Biome)
    ensures
        b == climate_biome(temp_c, rain),
        !b.is_water(),
{
    let polar = Scalar { bits: POLAR_TEMP_BITS };
    let boreal = Scalar { bits: BOREAL_TEMP_BITS };
    let temperate = Scalar { bits: TEMPERATE_TEMP_BITS };
    if temp_c.lt(polar) {
        let dry = Scalar { bits: POLAR_DESERT_RAIN_BITS };
        if rain.lt(dry) {
            Biome::PolarDesert
        } else {
            Biome::Tundra
        }
    } else if temp_c.lt(boreal) {
        let moist = Scalar { bits: BOREAL_FOREST_RAIN_BITS };
        if rain.gt(moist) {
            Biome::BorealForest
        } else {
            Biome::Tundra
        }
    } else if temp_c.lt(temperate) {
        let dry = Scalar { bits: GRASSLAND_RAIN_BITS };
        let mild = Scalar { bits: MEDITERRANEAN_RAIN_BITS };
        if rain.lt(dry) {
            Biome::TemperateGrassland
        } else if rain.lt(mild) {
            Biome::Mediterranean
        } else {
            Biome::TemperateForest
        }
    } else {
        let desert = Scalar { bits: HOT_DESERT_RAIN_BITS };
        let savanna = Scalar { bits: SAVANNA_RAIN_BITS };
        let seasonal = Scalar { bits: SEASONAL_FOREST_RAIN_BITS };
        if rain.lt(desert) {
            Biome::HotDesert
        } else if rain.lt(savanna) {
            Biome::Savanna
        } else if rain.lt(seasonal) {
            Biome::TropicalSeasonalForest
        } else {
            Biome::TropicalRainforest
        }
    }
}

/// Classifies one cell. `alpine_line` is the elevation above which land is
/// alpine.
pub fn classify(
    temp_c: Scalar,
    rain: Scalar,
    elev: Scalar,
    wet: Scalar,
    sea_level: Scalar,
    alpine_line: Scalar,
    is_lake: bool,
) -> (b: Biome)
    ensures
        b == biome_of(temp_c, rain, elev, wet, sea_level, alpine_line, is_lake),
        b == Biome::Ocean <==> elev.spec_le(sea_level),
        b == Biome::Lake ==> is_lake,
{
    let wetland = Scalar { bits: WETLAND_WETNESS_BITS };
    if elev.le(sea_level) {
        Biome::Ocean
    } else if is_lake {
        Biome::Lake
    } else if wet.gt(wetland) {
        Biome::Wetland
    } else if elev.gt(alpine_line) {
        Biome::Alpine
    } else {
        classify_climate(temp_c, rain)
    }
}

/// What biome classification reads. `wetness` blends rainfall with
/// accumulation; `alpine_line` is the elevation above which land is alpine.
pub struct BiomeSurvey<'a> {
    pub temperature: &'a Grid2D<Scalar>,
    pub rainfall: &'a Grid2D<Scalar>,
    pub elevation: &'a Grid2D<Scalar>,
    pub wetness: &'a Grid2D<Scalar>,
    pub lake_id: &'a Grid2D<u32>,
    pub sea_level: Scalar,
    pub alpine_line: Scalar,
}

impl<'a> BiomeSurvey<'a> {
    /// The rasters are well formed and agree in shape.
    pub open spec fn wf(&self) -> bool {
        &&& self.temperature.wf()
        &&& self.rainfall.wf()
        &&& self.elevation.wf()
        &&& self.wetness.wf()
        &&& self.lake_id.wf()
        &&& self.temperature.same_shape(self.elevation)
        &&& self.rainfall.same_shape(self.elevation)
        &&& self.wetness.same_shape(self.elevation)
        &&& self.lake_id.same_shape(self.elevation)
    }

    /// The biome of cell `c` before smoothing.
    pub open spec fn biome_at(&self, c: (int, int)) -> Biome {
        biome_of(
            self.temperature.at(c.0, c.1),
            self.rainfall.at(c.0, c.1),
            self.elevation.at(c.0, c.1),
            self.wetness.at(c.0, c.1),
            self.sea_level,
            self.alpine_line,
            self.lake_id.at(c.0, c.1) > 0,
        )
    }

    /// The biomes of all cells before smoothing, in row-major order.
    pub open spec fn classified(&self) -> Seq<Biome> {
        Seq::new(
            self.elevation@.len(),
            |k: int|
                self.biome_at(
                    (k % (self.elevation.spec_width() as int), k / (
                    self.elevation.spec_width() as int)),
                ),
        )
    }
}

/// Classifies every cell.
pub fn classify_cells(survey: &BiomeSurvey) -> (biome: Grid2D<Biome>)
    requires
        survey.wf(),
    ensures
        biome.wf(),
        biome.same_shape(survey.elevation),
        biome@ == survey.classified(),
        forall|x: int, y: int|
            survey.elevation.has(x, y) ==> #[trigger] biome.at(x, y) == survey.biome_at((x, y)),
{
    let w: usize = survey.elevation.width();
    let h: usize = survey.elevation.height();
    let n: usize = survey.elevation.len();
    let mut biome: Grid2D<Biome> = Grid2D::new(w, h, Biome::Ocean);
    let mut y: usize = 0;
    while y < h
        invariant
            y <= h,
            survey.wf(),
            w == survey.elevation.spec_width(),
            h == survey.elevation.spec_height(),
            biome.wf(),
            biome.same_shape(survey.elevation),
            forall|x2: int, y2: int|
                survey.elevation.has(x2, y2) && y2 < y ==> #[trigger] biome.at(x2, y2)
                    == survey.biome_at((x2, y2)),
        decreases h - y,
    {
        let mut x: usize = 0;
        while x < w
            invariant
                y < h,
                x <= w,
                survey.wf(),
                w == survey.elevation.spec_width(),
                h == survey.elevation.spec_height(),
                biome.wf(),
                biome.same_shape(survey.elevation),
                forall|x2: int, y2: int|
                    survey.elevation.has(x2, y2) && (y2 < y || (y2 == y && x2 < x))
                        ==> #[trigger] biome.at(x2, y2) == survey.biome_at((x2, y2)),
            decreases w - x,
        {
            let b = classify(
                *survey.temperature.get(x, y),
                *survey.rainfall.get(x, y),
                *survey.elevation.get(x, y),
                *survey.wetness.get(x, y),
                survey.sea_level,
                survey.alpine_line,
                *survey.lake_id.get(x, y) > 0,
            );
            biome.set(x, y, b);
            x += 1;
        }
        y += 1;
    }
    proof {
        let want = survey.classified();
        assert forall|k: int| 0 <= k < want.len() implies biome@[k] == want[k] by {
            lemma_index_cell(k, w as int, h as int);
            assert(biome.at(k % (w as int), k / (w as int)) == biome@[k]);
        }
        assert(biome@ =~= want);
    }
    biome
}

/// The biome stored for cell `c` in a row-major buffer of width `w`.
pub open spec fn cell_biome(cells: Seq<Biome>, w: int, c: (int, int)) -> Biome {
    cells[c.1 * w + c.0]
}

/// The nine biomes that vote on cell `c`: its own, then those of its eight
/// neighbours in the canonical order.
pub open spec fn window(cells: Seq<Biome>, w: int, c: (int, int)) -> Seq<Biome> {
    Seq::new(
        9,
        |i: int|
            if i == 0 {
                cell_biome(cells, w, c)
            } else {
                cell_biome(cells, w, step(c, i - 1))
            },
    )
}

/// Number of voters whose biome has tag `tag`.
pub open spec fn votes(voters: Seq<Biome>, tag: int) -> nat
    decreases voters.len(),
{
    if voters.len() == 0 {
        0
    } else {
        votes(voters.drop_last(), tag) + if voters.last().tag() == tag {
            1nat
        } else {
            0nat
        }
    }
}

/// `b` wins the vote: no biome has more votes, and every biome with a
/// smaller tag has fewer.
pub open spec fn is_winner(voters: Seq<Biome>, b: Biome) -> bool {
    &&& forall|t: int|
        0 <= t < BIOME_COUNT ==> #[trigger] votes(voters, t) <= votes(voters, b.tag() as int)
    &&& forall|t: int| 0 <= t < b.tag() ==> #[trigger] votes(voters, t) < votes(voters, b.tag() as int)
}

/// The biome that wins the vote.
pub open spec fn winner(voters: Seq<Biome>) -> Biome {
    choose|b: Biome| is_winner(voters, b)
}

/// At most one biome wins a vote.
pub proof fn lemma_winner_unique(voters: Seq<Biome>, a: Biome, b: Biome)
    requires
        is_winner(voters, a),
        is_winner(voters, b),
    ensures
        a == b,
        winner(voters) == a,
{
    crate::state::lemma_tags_injective();
    let c = winner(voters);
    if a.tag() < b.tag() {
        assert(votes(voters, a.tag() as int) < votes(voters, b.tag() as int));
    }
    if b.tag() < a.tag() {
        assert(votes(voters, b.tag() as int) < votes(voters, a.tag() as int));
    }
    if c.tag() < a.tag() {
        assert(votes(voters, c.tag() as int) < votes(voters, a.tag() as int));
    }
    if a.tag() < c.tag() {
        assert(votes(voters, a.tag() as int) < votes(voters, c.tag() as int));
    }
}

/// A cell off the border of a `w × h` map.
pub open spec fn interior(w: int, h: int, c: (int, int)) -> bool {
    1 <= c.0 < w - 1 && 1 <= c.1 < h - 1
}

/// The biome of cell `c` after one smoothing pass: border cells and water
/// keep their biome, every other cell takes the winner of its window.
pub open spec fn smoothed_cell(cells: Seq<Biome>, w: int, h: int, c: (int, int)) -> Biome {
    if interior(w, h, c) && !cell_biome(cells, w, c).is_water() {
        winner(window(cells, w, c))
    } else {
        cell_biome(cells, w, c)
    }
}

/// The biomes after one smoothing pass.
pub open spec fn smoothed(cells: Seq<Biome>, w: int, h: int) -> Seq<Biome> {
    Seq::new(cells.len(), |k: int| smoothed_cell(cells, w, h, (k % w, k / w)))
}

/// The biomes after `passes` smoothing passes.
pub open spec fn smoothed_times(cells: Seq<Biome>, w: int, h: int, passes: nat) -> Seq<Biome>
    decreases passes,
{
    if passes == 0 {
        cells
    } else {
        smoothed(smoothed_times(cells, w, h, (passes - 1) as nat), w, h)
    }
}

/// The winner of the vote around interior cell `(x, y)`.
fn vote(biome: &Grid2D<Biome>, x: usize, y: usize) -> (b: Biome)
    requires
        biome.wf(),
        interior(biome.spec_width() as int, biome.spec_height() as int, (x as int, y as int)),
    ensures
        is_winner(window(biome@, biome.spec_width() as int, (x as int, y as int)), b),
{
    let w: usize = biome.width();
    let h: usize = biome.height();
    let ghost c = (x as int, y as int);
    let ghost voters = window(biome@, w as int, c);
    let mut counts: Vec<u8> = Vec::new();
    let mut t: usize = 0;
    while t < BIOME_COUNT
        invariant
            t <= BIOME_COUNT,
            counts@.len() == t,
            forall|j: int| 0 <= j < t ==> counts@[j] == 0,
        decreases BIOME_COUNT - t,
    {
        counts.push(0);
        t += 1;
    }
    let centre_tag: usize = biome.get(x, y).as_u8() as usize;
    counts[centre_tag] = 1;
    proof {
        assert(voters.subrange(0, 1).drop_last() =~= Seq::<Biome>::empty());
        assert(voters.subrange(0, 1).last() == biome.at(c.0, c.1));
        assert forall|j: int| 0 <= j < BIOME_COUNT implies counts@[j] == votes(
            voters.subrange(0, 1),
            j,
        ) by {
            assert(votes(voters.subrange(0, 1).drop_last(), j) == 0);
        }
    }
    let mut dir: usize = 0;
    while dir < DIR_COUNT
        invariant
            dir <= DIR_COUNT,
            biome.wf(),
            w == biome.spec_width(),
            h == biome.spec_height(),
            c == (x as int, y as int),
            interior(w as int, h as int, c),
            voters == window(biome@, w as int, c),
            counts@.len() == BIOME_COUNT,
            forall|j: int|
                0 <= j < BIOME_COUNT ==> counts@[j] == votes(voters.subrange(0, dir + 1), j),
            forall|j: int| 0 <= j < BIOME_COUNT ==> counts@[j] <= dir + 1,
        decreases DIR_COUNT - dir,
    {
        let cell = neighbor(x, y, dir, w, h).unwrap();
        let tag: usize = biome.get(cell.0, cell.1).as_u8() as usize;
        let seen: u8 = counts[tag];
        counts[tag] = seen + 1;
        proof {
            let before = voters.subrange(0, dir + 1);
            let after = voters.subrange(0, dir + 2);
            assert(after.drop_last() =~= before);
            assert(after.last() == voters[dir + 1]);
            assert(voters[dir + 1] == cell_biome(biome@, w as int, step(c, dir as int)));
            assert(biome.at(cell.0 as int, cell.1 as int) == after.last());
        }
        dir += 1;
    }
    assert(voters.subrange(0, 9) =~= voters);
    let mut best: usize = 0;
    let mut best_count: u8 = counts[0];
    let mut idx: usize = 1;
    while idx < BIOME_COUNT
        invariant
            1 <= idx <= BIOME_COUNT,
            best < idx,
            counts@.len() == BIOME_COUNT,
            best_count == counts@[best as int],
            forall|j: int| 0 <= j < BIOME_COUNT ==> counts@[j] == votes(voters, j),
            forall|j: int| 0 <= j < idx ==> counts@[j] <= best_count,
            forall|j: int| 0 <= j < best ==> counts@[j] < best_count,
        decreases BIOME_COUNT - idx,
    {
        if counts[idx] > best_count {
            best_count = counts[idx];
            best = idx;
        }
        idx += 1;
    }
    Biome::from_u8(best as u8)
}

/// One majority-vote pass: every interior land cell takes the biome that is
/// most frequent among itself and its eight neighbours, the smallest tag
/// winning a tie; border cells, ocean and lakes keep their biome.
pub fn smooth_biomes(biome: &Grid2D<Biome>) -> (out: Grid2D<Biome>)
    requires
        biome.wf(),
    ensures
        out.wf(),
        out.same_shape(biome),
        out@ == smoothed(biome@, biome.spec_width() as int, biome.spec_height() as int),
{
    let w: usize = biome.width();
    let h: usize = biome.height();
    let mut out: Grid2D<Biome> = biome.clone();
    assert(out@ =~= biome@);
    if w < 3 || h < 3 {
        proof {
            let want = smoothed(biome@, w as int, h as int);
            assert forall|k: int| 0 <= k < want.len() implies out@[k] == want[k] by {
                if w > 0 {
                    lemma_index_cell(k, w as int, h as int);
                }
            }
            assert(out@ =~= want);
        }
        return out;
    }
    let mut y: usize = 1;
    while y < h - 1
        invariant
            1 <= y <= h - 1,
            w >= 3,
            h >= 3,
            biome.wf(),
            out.wf(),
            w == biome.spec_width(),
            h == biome.spec_height(),
            out.same_shape(biome),
            forall|x2: int, y2: int|
                biome.has(x2, y2) ==> #[trigger] out.at(x2, y2) == if y2 < y {
                    smoothed_cell(biome@, w as int, h as int, (x2, y2))
                } else {
                    biome.at(x2, y2)
                },
        decreases h - y,
    {
        let mut x: usize = 1;
        while x < w - 1
            invariant
                1 <= y < h - 1,
                1 <= x <= w - 1,
                w >= 3,
                h >= 3,
                biome.wf(),
                out.wf(),
                w == biome.spec_width(),
                h == biome.spec_height(),
                out.same_shape(biome),
                forall|x2: int, y2: int|
                    biome.has(x2, y2) ==> #[trigger] out.at(x2, y2) == if y2 < y || (y2 == y && x2
                        < x) {
                        smoothed_cell(biome@, w as int, h as int, (x2, y2))
                    } else {
                        biome.at(x2, y2)
                    },
            decreases w - x,
        {
            let centre: Biome = *biome.get(x, y);
            let water: bool = match centre {
                Biome::Ocean => true,
                Biome::Lake => true,
                _ => false,
            };
            if !water {
                let b = vote(biome, x, y);
                proof {
                    let voters = window(biome@, w as int, (x as int, y as int));
                    lemma_winner_unique(voters, b, b);
                }
                out.set(x, y, b);
            }
            x += 1;
        }
        y += 1;
    }
    proof {
        let want = smoothed(biome@, w as int, h as int);
        assert forall|k: int| 0 <= k < want.len() implies out@[k] == want[k] by {
            lemma_index_cell(k, w as int, h as int);
            assert(out.at(k % (w as int), k / (w as int)) == out@[k]);
        }
        assert(out@ =~= want);
    }
    out
}

/// Classifies every cell and applies `passes` smoothing passes.
pub fn classify_and_smooth(survey: &BiomeSurvey, passes: u32) -> (biome: Grid2D<Biome>)
    requires
        survey.wf(),
    ensures
        biome.wf(),
        biome.same_shape(survey.elevation),
        biome@ == smoothed_times(
            survey.classified(),
            survey.elevation.spec_width() as int,
            survey.elevation.spec_height() as int,
            passes as nat,
        ),
{
    let mut biome: Grid2D<Biome> = classify_cells(survey);
    let mut done: u32 = 0;
    while done < passes
        invariant
            done <= passes,
            biome.wf(),
            biome.same_shape(survey.elevation),
            biome@ == smoothed_times(
                survey.classified(),
                survey.elevation.spec_width() as int,
                survey.elevation.spec_height() as int,
                done as nat,
            ),
        decreases passes - done,
    {
        biome = smooth_biomes(&biome);
        done += 1;
    }
    biome
}

/// Runs the stage: classifies every cell from the world's temperature,
/// rainfall, elevation and lake ids and from the given wetness, then applies
/// the smoothing passes the parameters ask for. Only the biome layer changes.
pub fn run(
    state: &mut WorldState,
    params: &GenerationParams,
    wetness: &Grid2D<Scalar>,
    alpine_line: Scalar,
)
    requires
        old(state).wf(),
        fits(wetness, old(state).width, old(state).height),
    ensures
        final(state).wf(),
        *final(state) == (WorldState { biome: final(state).biome, ..*old(state) }),
        final(state).biome@ == smoothed_times(
            (BiomeSurvey {
                temperature: &old(state).temperature,
                rainfall: &old(state).rainfall,
                elevation: &old(state).elevation,
                wetness,
                lake_id: &old(state).lake_id,
                sea_level: params.base.sea_level,
                alpine_line,
            }).classified(),
            old(state).width as int,
            old(state).height as int,
            params.biomes.smoothing_passes as nat,
        ),
{
    let survey = BiomeSurvey {
        temperature: &state.temperature,
        rainfall: &state.rainfall,
        elevation: &state.elevation,
        wetness,
        lake_id: &state.lake_id,
        sea_level: params.base.sea_level,
        alpine_line,
    };
    let biome = classify_and_smooth(&survey, params.biomes.smoothing_passes);
    state.biome = biome;
}

/// With no smoothing pass the biomes are the classification itself, and
/// each further pass smooths the result of the passes before it.
pub proof fn lemma_smoothing_passes(cells: Seq<Biome>, w: int, h: int, passes: nat)
    ensures
        smoothed_times(cells, w, h, 0) == cells,
        smoothed_times(cells, w, h, passes + 1) == smoothed(
            smoothed_times(cells, w, h, passes),
            w,
            h,
        ),
{
    reveal_with_fuel(smoothed_times, 2);
}

/// Before smoothing, a cell is ocean exactly when it lies at or below sea
/// level, and lake only where a lake was identified. Smoothing can turn a
/// land cell above sea level into ocean where ocean holds the majority.
pub proof fn lemma_water_biomes(survey: &BiomeSurvey, c: (int, int))
    ensures
        survey.biome_at(c) == Biome::Ocean <==> survey.elevation.at(c.0, c.1).spec_le(
            survey.sea_level,
        ),
        survey.biome_at(c) == Biome::Lake ==> survey.lake_id.at(c.0, c.1) != 0,
{
}

} // verus!
