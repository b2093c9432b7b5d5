//! The world model: its closed enumerations with their stable numeric tags,
//! the world state with all its layers, and the diagnostics taken of it.

use vstd::prelude::*;
use vstd::string::*;
use crate::digest::{
    biome_bytes,
    combine,
    entries_view,
    flag_bytes,
    hash_biome,
    hash_bool,
    hash_province,
    hash_river_class,
    hash_rock,
    hash_scalars,
    hash_strata,
    hash_u32,
    hash_u8,
    hex_digest,
    is_hex_digest,
    listing_bytes,
    province_bytes,
    river_bytes,
    rock_bytes,
    scalar_bits,
    strata_bytes,
    words_bytes,
    LayerHash,
};
use crate::grid::Grid2D;
use crate::params::GenerationParams;
use crate::scalar::Scalar;

verus! {

/// The five pipeline stages, in execution order.
#[derive(Clone, Copy, Debug, PartialEq, Eq, Structural, PartialOrd, Ord, Hash)]
pub enum Step {
    BaseFields,
    ErosionHydrology,
    Biomes,
    HydroFinalize,
    Geology,
}

impl Step {
    /// The stages in execution order.
    pub const ALL: [Step; 5] = [
        Step::BaseFields,
        Step::ErosionHydrology,
        Step::Biomes,
        Step::HydroFinalize,
        Step::Geology,
    ];

    /// One-based position in the execution order.
    pub open spec fn ordinal(self) -> usize {
        match self {
            Step::BaseFields => 1,
            Step::ErosionHydrology => 2,
            Step::Biomes => 3,
            Step::HydroFinalize => 4,
            Step::Geology => 5,
        }
    }

    /// One-based position in the execution order.
    #[verifier::when_used_as_spec(ordinal)]
    pub fn index(self) -> (i: usize)
        ensures
            i == self.ordinal(),
            1 <= i <= 5,
    {
        match self {
            Step::BaseFields => 1,
            Step::ErosionHydrology => 2,
            Step::Biomes => 3,
            Step::HydroFinalize => 4,
            Step::Geology => 5,
        }
    }
}

/// River class of a cell, by discharge.
#[derive(Clone, Copy, Debug, PartialEq, Eq, Structural)]
pub enum RiverClass {
    NoRiver,
    Ephemeral,
    Perennial,
    Major,
}

impl RiverClass {
    /// The stable tag of the class.
    pub open spec fn tag(self) -> u8 {
        match self {
            RiverClass::NoRiver => 0,
            RiverClass::Ephemeral => 1,
            RiverClass::Perennial => 2,
            RiverClass::Major => 3,
        }
    }

    /// The stable tag of the class.
    #[verifier::when_used_as_spec(tag)]
    pub fn as_u8(self) -> (t: u8)
        ensures
            t == self.tag(),
            t < 4,
    {
        match self {
            RiverClass::NoRiver => 0,
            RiverClass::Ephemeral => 1,
            RiverClass::Perennial => 2,
            RiverClass::Major => 3,
        }
    }
}

/// Number of biomes.
pub const BIOME_COUNT: usize = 14;

/// Biome of a cell.
#[derive(Clone, Copy, Debug, PartialEq, Eq, Structural)]
pub enum Biome {
    Ocean,
    Lake,
    PolarDesert,
    Tundra,
    BorealForest,
    TemperateGrassland,
    TemperateForest,
    Mediterranean,
    Savanna,
    TropicalSeasonalForest,
    TropicalRainforest,
    HotDesert,
    Alpine,
    Wetland,
}

impl Biome {
    /// The stable tag of the biome.
    pub open spec fn tag(self) -> u8 {
        match self {
            Biome::Ocean => 0,
            Biome::Lake => 1,
            Biome::PolarDesert => 2,
            Biome::Tundra => 3,
            Biome::BorealForest => 4,
            Biome::TemperateGrassland => 5,
            Biome::TemperateForest => 6,
            Biome::Mediterranean => 7,
            Biome::Savanna => 8,
            Biome::TropicalSeasonalForest => 9,
            Biome::TropicalRainforest => 10,
            Biome::HotDesert => 11,
            Biome::Alpine => 12,
            Biome::Wetland => 13,
        }
    }

    /// The biome with the given tag; tags past the last name the last biome.
    pub open spec fn of_tag(tag: u8) -> Biome {
        match tag {
            0 => Biome::Ocean,
            1 => Biome::Lake,
            2 => Biome::PolarDesert,
            3 => Biome::Tundra,
            4 => Biome::BorealForest,
            5 => Biome::TemperateGrassland,
            6 => Biome::TemperateForest,
            7 => Biome::Mediterranean,
            8 => Biome::Savanna,
            9 => Biome::TropicalSeasonalForest,
            10 => Biome::TropicalRainforest,
            11 => Biome::HotDesert,
            12 => Biome::Alpine,
            _ => Biome::Wetland,
        }
    }

    /// Ocean and lake cells are never reclassified by smoothing.
    pub open spec fn is_water(self) -> bool {
        self == Biome::Ocean || self == Biome::Lake
    }

    /// The stable tag of the biome.
    #[verifier::when_used_as_spec(tag)]
    pub fn as_u8(self) -> (t: u8)
        ensures
            t == self.tag(),
            t < BIOME_COUNT,
    {
        match self {
            Biome::Ocean => 0,
            Biome::Lake => 1,
            Biome::PolarDesert => 2,
            Biome::Tundra => 3,
            Biome::BorealForest => 4,
            Biome::TemperateGrassland => 5,
            Biome::TemperateForest => 6,
            Biome::Mediterranean => 7,
            Biome::Savanna => 8,
            Biome::TropicalSeasonalForest => 9,
            Biome::TropicalRainforest => 10,
            Biome::HotDesert => 11,
            Biome::Alpine => 12,
            Biome::Wetland => 13,
        }
    }

    /// The biome with the given tag; tags past the last name the last biome.
    pub fn from_u8(tag: u8) -> (b: Biome)
        ensures
            b == Biome::of_tag(tag),
            tag < BIOME_COUNT ==> b.tag() == tag,
    {
        match tag {
            0 => Biome::Ocean,
            1 => Biome::Lake,
            2 => Biome::PolarDesert,
            3 => Biome::Tundra,
            4 => Biome::BorealForest,
            5 => Biome::TemperateGrassland,
            6 => Biome::TemperateForest,
            7 => Biome::Mediterranean,
            8 => Biome::Savanna,
            9 => Biome::TropicalSeasonalForest,
            10 => Biome::TropicalRainforest,
            11 => Biome::HotDesert,
            12 => Biome::Alpine,
            _ => Biome::Wetland,
        }
    }

    /// Every biome is the one its tag names.
    pub proof fn lemma_tag_round_trip(self)
        ensures
            Biome::of_tag(self.tag()) == self,
            self.tag() < BIOME_COUNT,
    {
    }
}

/// Large-scale geologic classification of a cell.
#[derive(Clone, Copy, Debug, PartialEq, Eq, Structural)]
pub enum GeologicProvince {
    Oceanic,
    Craton,
    Orogen,
    Basin,
    VolcanicArc,
}

impl GeologicProvince {
    /// The stable tag of the province.
    pub open spec fn tag(self) -> u8 {
        match self {
            GeologicProvince::Oceanic => 0,
            GeologicProvince::Craton => 1,
            GeologicProvince::Orogen => 2,
            GeologicProvince::Basin => 3,
            GeologicProvince::VolcanicArc => 4,
        }
    }

    /// The stable tag of the province.
    #[verifier::when_used_as_spec(tag)]
    pub fn as_u8(self) -> (t: u8)
        ensures
            t == self.tag(),
            t < 5,
    {
        match self {
            GeologicProvince::Oceanic => 0,
            GeologicProvince::Craton => 1,
            GeologicProvince::Orogen => 2,
            GeologicProvince::Basin => 3,
            GeologicProvince::VolcanicArc => 4,
        }
    }
}

/// Rock of a stratum.
#[derive(Clone, Copy, Debug, PartialEq, Eq, Structural)]
pub enum RockType {
    Basalt,
    Gabbro,
    Granite,
    Sandstone,
    Limestone,
    Schist,
    Gneiss,
    Shale,
    Rhyolite,
}

impl RockType {
    /// The stable tag of the rock.
    pub open spec fn tag(self) -> u8 {
        match self {
            RockType::Basalt => 0,
            RockType::Gabbro => 1,
            RockType::Granite => 2,
            RockType::Sandstone => 3,
            RockType::Limestone => 4,
            RockType::Schist => 5,
            RockType::Gneiss => 6,
            RockType::Shale => 7,
            RockType::Rhyolite => 8,
        }
    }

    /// The stable tag of the rock.
    #[verifier::when_used_as_spec(tag)]
    pub fn as_u8(self) -> (t: u8)
        ensures
            t == self.tag(),
            t < 9,
    {
        match self {
            RockType::Basalt => 0,
            RockType::Gabbro => 1,
            RockType::Granite => 2,
            RockType::Sandstone => 3,
            RockType::Limestone => 4,
            RockType::Schist => 5,
            RockType::Gneiss => 6,
            RockType::Shale => 7,
            RockType::Rhyolite => 8,
        }
    }
}

/// Number of minerals.
pub const MINERAL_COUNT: usize = 6;

/// Mineral whose occurrence is mapped.
#[derive(Clone, Copy, Debug, PartialEq, Eq, Structural)]
pub enum Mineral {
    Iron,
    Copper,
    Gold,
    Tin,
    Coal,
    Gem,
}

impl Mineral {
    /// The minerals in tag order.
    pub const ALL: [Mineral; 6] = [
        Mineral::Iron,
        Mineral::Copper,
        Mineral::Gold,
        Mineral::Tin,
        Mineral::Coal,
        Mineral::Gem,
    ];

    /// The stable tag of the mineral.
    pub open spec fn tag(self) -> u8 {
        match self {
            Mineral::Iron => 0,
            Mineral::Copper => 1,
            Mineral::Gold => 2,
            Mineral::Tin => 3,
            Mineral::Coal => 4,
            Mineral::Gem => 5,
        }
    }

    /// The stable tag of the mineral.
    #[verifier::when_used_as_spec(tag)]
    pub fn as_u8(self) -> (t: u8)
        ensures
            t == self.tag(),
            t < MINERAL_COUNT,
    {
        match self {
            Mineral::Iron => 0,
            Mineral::Copper => 1,
            Mineral::Gold => 2,
            Mineral::Tin => 3,
            Mineral::Coal => 4,
            Mineral::Gem => 5,
        }
    }

    /// The mineral's name in lower case.
    pub open spec fn spec_name(self) -> Seq<char> {
        match self {
            Mineral::Iron => "iron"@,
            Mineral::Copper => "copper"@,
            Mineral::Gold => "gold"@,
            Mineral::Tin => "tin"@,
            Mineral::Coal => "coal"@,
            Mineral::Gem => "gem"@,
        }
    }

    /// The mineral's name in lower case.
    pub fn name(self) -> (s: &'static str)
        ensures
            s@ == self.spec_name(),
    {
        match self {
            Mineral::Iron => "iron",
            Mineral::Copper => "copper",
            Mineral::Gold => "gold",
            Mineral::Tin => "tin",
            Mineral::Coal => "coal",
            Mineral::Gem => "gem",
        }
    }
}

/// Distinct steps have distinct positions, distinct river classes, biomes,
/// provinces, rocks and minerals have distinct tags.
pub proof fn lemma_tags_injective()
    ensures
        forall|a: Step, b: Step| a.ordinal() == b.ordinal() ==> a == b,
        forall|a: RiverClass, b: RiverClass| a.tag() == b.tag() ==> a == b,
        forall|a: Biome, b: Biome| a.tag() == b.tag() ==> a == b,
        forall|a: GeologicProvince, b: GeologicProvince| a.tag() == b.tag() ==> a == b,
        forall|a: RockType, b: RockType| a.tag() == b.tag() ==> a == b,
        forall|a: Mineral, b: Mineral| a.tag() == b.tag() ==> a == b,
{
}

/// One stratum of a cell's stack: its rock and the 24-bit draw, a numerator
/// over 2^24, from which its thickness derives as `8 + 28 · draw / 2^24`.
#[derive(Clone, Copy, Debug, PartialEq, Eq, Structural)]
pub struct StrataLayer {
    pub rock: RockType,
    pub grain: u32,
}

/// An elapsed time in milliseconds, held as an IEEE-754 binary64 bit pattern.
#[derive(Clone, Copy, Debug, PartialEq, Eq, Structural)]
pub struct Millis {
    pub bits: u64,
}

/// Number of pipeline stages.
pub const STEP_COUNT: usize = 5;

/// Number of hashed layers: the seventeen layers of the world and one mask
/// per mineral.
pub const LAYER_COUNT: usize = 23;

/// The hashes of the layers, sorted by layer name, and their checksum.
#[derive(Clone, Debug)]
pub struct Diagnostics {
    pub layer_hashes: Vec<LayerHash>,
    pub checksum: String,
}

impl Diagnostics {
    /// Name and hash of every entry.
    pub open spec fn entries(&self) -> Seq<(Seq<char>, Seq<char>)> {
        entries_view(self.layer_hashes@)
    }
}

impl Default for Diagnostics {
    /// No layer hashed yet; the checksum reads `unset`.
    fn default() -> (d: Diagnostics)
        ensures
            d.layer_hashes@.len() == 0,
            d.checksum@ == "unset"@,
    {
        Diagnostics { layer_hashes: Vec::new(), checksum: String::from_str("unset") }
    }
}

/// All layers of a world, the pipeline cursor, timings, parameters and
/// diagnostics.
#[derive(Clone, Debug)]
pub struct WorldState {
    pub width: usize,
    pub height: usize,
    pub elevation: Grid2D<Scalar>,
    pub temperature: Grid2D<Scalar>,
    pub rainfall: Grid2D<Scalar>,
    pub pressure: Grid2D<Scalar>,
    pub wind_u: Grid2D<Scalar>,
    pub wind_v: Grid2D<Scalar>,
    pub flow_dir: Grid2D<u8>,
    pub accumulation: Grid2D<Scalar>,
    pub discharge: Grid2D<Scalar>,
    pub river_class: Grid2D<RiverClass>,
    pub lake_id: Grid2D<u32>,
    pub ocean_mask: Grid2D<bool>,
    pub biome: Grid2D<Biome>,
    pub fertility: Grid2D<Scalar>,
    pub geologic_province: Grid2D<GeologicProvince>,
    pub strata: Grid2D<Vec<StrataLayer>>,
    pub rock_type: Grid2D<RockType>,
    /// One mask per mineral, at the index of the mineral's tag.
    pub mineral_masks: Vec<Grid2D<bool>>,
    pub current_step: Option<Step>,
    /// The time each stage took when it last ran, at the index before the
    /// stage's position.
    pub step_timings_ms: Vec<Option<Millis>>,
    pub params: GenerationParams,
    pub diagnostics: Diagnostics,
}

/// A well-formed raster of the given shape.
pub open spec fn fits<T>(grid: &Grid2D<T>, width: usize, height: usize) -> bool {
    grid.wf() && grid.spec_width() == width && grid.spec_height() == height
}

/// A raster whose every cell holds `value`.
pub open spec fn uniform<T>(grid: &Grid2D<T>, value: T) -> bool {
    forall|x: int, y: int| grid.has(x, y) ==> #[trigger] grid.at(x, y) == value
}

/// The name of hashed layer `i`; the names ascend with `i`.
pub open spec fn layer_name(i: int) -> Seq<char> {
    if i == 0 {
        "accumulation"@
    } else if i == 1 {
        "biome"@
    } else if i == 2 {
        "discharge"@
    } else if i == 3 {
        "elevation"@
    } else if i == 4 {
        "fertility"@
    } else if i == 5 {
        "flow_dir"@
    } else if i == 6 {
        "lake_id"@
    } else if i == 7 {
        "mineral_"@ + Mineral::Coal.spec_name()
    } else if i == 8 {
        "mineral_"@ + Mineral::Copper.spec_name()
    } else if i == 9 {
        "mineral_"@ + Mineral::Gem.spec_name()
    } else if i == 10 {
        "mineral_"@ + Mineral::Gold.spec_name()
    } else if i == 11 {
        "mineral_"@ + Mineral::Iron.spec_name()
    } else if i == 12 {
        "mineral_"@ + Mineral::Tin.spec_name()
    } else if i == 13 {
        "ocean_mask"@
    } else if i == 14 {
        "pressure"@
    } else if i == 15 {
        "province"@
    } else if i == 16 {
        "rainfall"@
    } else if i == 17 {
        "river_class"@
    } else if i == 18 {
        "rock_type"@
    } else if i == 19 {
        "strata"@
    } else if i == 20 {
        "temperature"@
    } else if i == 21 {
        "wind_u"@
    } else {
        "wind_v"@
    }
}

/// `a` comes before `b` in the order of their characters: the two agree on
/// their first `k` characters, and there `a` ends while `b` goes on, or `a`
/// has the smaller character.
pub open spec fn name_before(a: Seq<char>, b: Seq<char>, k: int) -> bool {
    &&& 0 <= k <= a.len()
    &&& k <= b.len()
    &&& forall|j: int| 0 <= j < k ==> a[j] == b[j]
    &&& (k == a.len() && k < b.len()) || (k < a.len() && k < b.len() && (a[k] as u32) < (
    b[k] as u32))
}

/// Where the name of layer `i` and the name of the next layer first differ.
pub open spec fn name_split(i: int) -> int {
    if i == 7 {
        10
    } else if i == 9 {
        9
    } else if i == 8 || i == 10 || i == 11 {
        8
    } else if i == 21 {
        5
    } else if i == 14 {
        2
    } else if i == 4 || i == 16 || i == 17 {
        1
    } else {
        0
    }
}

/// The names of the hashed layers ascend strictly, so that listing the
/// layers by index lists them in the sorted order of their names.
pub proof fn lemma_layer_names_ascend(i: int)
    requires
        0 <= i < LAYER_COUNT - 1,
    ensures
        name_before(layer_name(i), layer_name(i + 1), name_split(i)),
{
    reveal_strlit("accumulation");
    reveal_strlit("biome");
    reveal_strlit("discharge");
    reveal_strlit("elevation");
    reveal_strlit("fertility");
    reveal_strlit("flow_dir");
    reveal_strlit("lake_id");
    reveal_strlit("mineral_");
    reveal_strlit("iron");
    reveal_strlit("copper");
    reveal_strlit("gold");
    reveal_strlit("tin");
    reveal_strlit("coal");
    reveal_strlit("gem");
    reveal_strlit("ocean_mask");
    reveal_strlit("pressure");
    reveal_strlit("province");
    reveal_strlit("rainfall");
    reveal_strlit("river_class");
    reveal_strlit("rock_type");
    reveal_strlit("strata");
    reveal_strlit("temperature");
    reveal_strlit("wind_u");
    reveal_strlit("wind_v");
}

impl WorldState {
    /// Every layer is a well-formed raster of the world's shape, and there
    /// is one mineral mask per mineral and one timing slot per stage.
    pub open spec fn wf(&self) -> bool {
        &&& fits(&self.elevation, self.width, self.height)
        &&& fits(&self.temperature, self.width, self.height)
        &&& fits(&self.rainfall, self.width, self.height)
        &&& fits(&self.pressure, self.width, self.height)
        &&& fits(&self.wind_u, self.width, self.height)
        &&& fits(&self.wind_v, self.width, self.height)
        &&& fits(&self.flow_dir, self.width, self.height)
        &&& fits(&self.accumulation, self.width, self.height)
        &&& fits(&self.discharge, self.width, self.height)
        &&& fits(&self.river_class, self.width, self.height)
        &&& fits(&self.lake_id, self.width, self.height)
        &&& fits(&self.ocean_mask, self.width, self.height)
        &&& fits(&self.biome, self.width, self.height)
        &&& fits(&self.fertility, self.width, self.height)
        &&& fits(&self.geologic_province, self.width, self.height)
        &&& fits(&self.strata, self.width, self.height)
        &&& fits(&self.rock_type, self.width, self.height)
        &&& self.mineral_masks@.len() == MINERAL_COUNT
        &&& forall|i: int|
            0 <= i < MINERAL_COUNT ==> fits(#[trigger] &self.mineral_masks@[i], self.width, self.height)
        &&& self.step_timings_ms@.len() == STEP_COUNT
    }

    /// A world in which no stage has run: every layer holds its initial value.
    pub open spec fn blank(&self) -> bool {
        &&& uniform(&self.elevation, Scalar { bits: 0 })
        &&& uniform(&self.temperature, Scalar { bits: 0 })
        &&& uniform(&self.rainfall, Scalar { bits: 0 })
        &&& uniform(&self.pressure, Scalar { bits: 0 })
        &&& uniform(&self.wind_u, Scalar { bits: 0 })
        &&& uniform(&self.wind_v, Scalar { bits: 0 })
        &&& uniform(&self.flow_dir, 255u8)
        &&& uniform(&self.accumulation, Scalar { bits: 0 })
        &&& uniform(&self.discharge, Scalar { bits: 0 })
        &&& uniform(&self.river_class, RiverClass::NoRiver)
        &&& uniform(&self.lake_id, 0u32)
        &&& uniform(&self.ocean_mask, false)
        &&& uniform(&self.biome, Biome::Ocean)
        &&& uniform(&self.fertility, Scalar { bits: 0 })
        &&& uniform(&self.geologic_province, GeologicProvince::Craton)
        &&& forall|x: int, y: int|
            self.strata.has(x, y) ==> (#[trigger] self.strata.at(x, y))@.len() == 0
        &&& uniform(&self.rock_type, RockType::Granite)
        &&& forall|i: int|
            0 <= i < self.mineral_masks@.len() ==> uniform(#[trigger] &self.mineral_masks@[i], false)
        &&& self.current_step is None
        &&& forall|i: int|
            0 <= i < self.step_timings_ms@.len() ==> (#[trigger] self.step_timings_ms@[i]) is None
        &&& self.diagnostics.layer_hashes@.len() == 0
        &&& self.diagnostics.checksum@ == "unset"@
    }

    /// A blank world of the size the parameters ask for.
    pub fn new(params: GenerationParams) -> (state: WorldState)
        ensures
            state.wf(),
            state.width == params.size.side(),
            state.height == params.size.side(),
            state.params == params,
            state.blank(),
    {
        let (width, height) = params.size.dimensions();
        let zero = Scalar { bits: 0 };
        let mut mineral_masks: Vec<Grid2D<bool>> = Vec::new();
        let mut m: usize = 0;
        while m < MINERAL_COUNT
            invariant
                m <= MINERAL_COUNT,
                width * height <= usize::MAX,
                mineral_masks@.len() == m,
                forall|i: int|
                    0 <= i < m ==> fits(#[trigger] &mineral_masks@[i], width, height) && uniform(
                        &mineral_masks@[i],
                        false,
                    ),
            decreases MINERAL_COUNT - m,
        {
            mineral_masks.push(Grid2D::new(width, height, false));
            m += 1;
        }
        let mut step_timings_ms: Vec<Option<Millis>> = Vec::new();
        let mut t: usize = 0;
        while t < STEP_COUNT
            invariant
                t <= STEP_COUNT,
                step_timings_ms@.len() == t,
                forall|i: int| 0 <= i < t ==> (#[trigger] step_timings_ms@[i]) is None,
            decreases STEP_COUNT - t,
        {
            step_timings_ms.push(None);
            t += 1;
        }
        WorldState {
            width,
            height,
            elevation: Grid2D::new(width, height, zero),
            temperature: Grid2D::new(width, height, zero),
            rainfall: Grid2D::new(width, height, zero),
            pressure: Grid2D::new(width, height, zero),
            wind_u: Grid2D::new(width, height, zero),
            wind_v: Grid2D::new(width, height, zero),
            flow_dir: Grid2D::new(width, height, 255),
            accumulation: Grid2D::new(width, height, zero),
            discharge: Grid2D::new(width, height, zero),
            river_class: Grid2D::new(width, height, RiverClass::NoRiver),
            lake_id: Grid2D::new(width, height, 0),
            ocean_mask: Grid2D::new(width, height, false),
            biome: Grid2D::new(width, height, Biome::Ocean),
            fertility: Grid2D::new(width, height, zero),
            geologic_province: Grid2D::new(width, height, GeologicProvince::Craton),
            strata: Grid2D::new(width, height, Vec::new()),
            rock_type: Grid2D::new(width, height, RockType::Granite),
            mineral_masks,
            current_step: None,
            step_timings_ms,
            params,
            diagnostics: Diagnostics::default(),
        }
    }

    /// The bytes that hashed layer `i` is hashed by: scalars and lake ids as
    /// little-endian words, flow directions as they stand, masks as 0 or 1,
    /// enumerations by their tags, strata by rock tag and draw.
    pub open spec fn layer_bytes(&self, i: int) -> Seq<u8> {
        if i == 0 {
            words_bytes(scalar_bits(self.accumulation@))
        } else if i == 1 {
            biome_bytes(self.biome@)
        } else if i == 2 {
            words_bytes(scalar_bits(self.discharge@))
        } else if i == 3 {
            words_bytes(scalar_bits(self.elevation@))
        } else if i == 4 {
            words_bytes(scalar_bits(self.fertility@))
        } else if i == 5 {
            self.flow_dir@
        } else if i == 6 {
            words_bytes(self.lake_id@)
        } else if i == 7 {
            flag_bytes(self.mineral_masks@[Mineral::Coal.tag() as int]@)
        } else if i == 8 {
            flag_bytes(self.mineral_masks@[Mineral::Copper.tag() as int]@)
        } else if i == 9 {
            flag_bytes(self.mineral_masks@[Mineral::Gem.tag() as int]@)
        } else if i == 10 {
            flag_bytes(self.mineral_masks@[Mineral::Gold.tag() as int]@)
        } else if i == 11 {
            flag_bytes(self.mineral_masks@[Mineral::Iron.tag() as int]@)
        } else if i == 12 {
            flag_bytes(self.mineral_masks@[Mineral::Tin.tag() as int]@)
        } else if i == 13 {
            flag_bytes(self.ocean_mask@)
        } else if i == 14 {
            words_bytes(scalar_bits(self.pressure@))
        } else if i == 15 {
            province_bytes(self.geologic_province@)
        } else if i == 16 {
            words_bytes(scalar_bits(self.rainfall@))
        } else if i == 17 {
            river_bytes(self.river_class@)
        } else if i == 18 {
            rock_bytes(self.rock_type@)
        } else if i == 19 {
            strata_bytes(self.strata@)
        } else if i == 20 {
            words_bytes(scalar_bits(self.temperature@))
        } else if i == 21 {
            words_bytes(scalar_bits(self.wind_u@))
        } else {
            words_bytes(scalar_bits(self.wind_v@))
        }
    }

    /// Name and hash of every hashed layer, in ascending order of name.
    pub open spec fn layer_hashes(&self) -> Seq<(Seq<char>, Seq<char>)> {
        Seq::new(LAYER_COUNT as nat, |i: int| (layer_name(i), hex_digest(self.layer_bytes(i))))
    }

    /// The checksum of the world: the hash of the listing of its layer hashes.
    pub open spec fn checksum(&self) -> Seq<char> {
        hex_digest(listing_bytes(self.layer_hashes()))
    }

    /// `after` is this world with its diagnostics brought up to date.
    pub open spec fn diagnosed_as(&self, after: &WorldState) -> bool {
        &&& after.diagnostics.entries() == self.layer_hashes()
        &&& after.diagnostics.checksum@ == self.checksum()
        &&& is_hex_digest(after.diagnostics.checksum@)
        &&& forall|i: int|
            0 <= i < after.diagnostics.layer_hashes@.len() ==> is_hex_digest(
                (#[trigger] after.diagnostics.layer_hashes@[i]).hash@,
            )
        &&& *after == (WorldState { diagnostics: after.diagnostics, ..*self })
    }

    fn mineral_entry(&self, mineral: Mineral) -> (entry: LayerHash)
        requires
            self.mineral_masks@.len() == MINERAL_COUNT,
        ensures
            entry@ == (
                "mineral_"@ + mineral.spec_name(),
                hex_digest(flag_bytes(self.mineral_masks@[mineral.tag() as int]@)),
            ),
            is_hex_digest(entry.hash@),
    {
        let mut name = String::from_str("mineral_");
        name.append(mineral.name());
        let mask = &self.mineral_masks[mineral.as_u8() as usize];
        LayerHash { name, hash: hash_bool(mask.as_slice()) }
    }

    /// Hashes every layer and combines the hashes, in ascending order of
    /// layer name, into the checksum. Every hash and the checksum are 64
    /// lowercase hexadecimal digits. Nothing but the diagnostics changes.
    pub fn update_diagnostics(&mut self)
        requires
            old(self).mineral_masks@.len() == MINERAL_COUNT,
        ensures
            old(self).diagnosed_as(final(self)),
    {
        let mut entries: Vec<LayerHash> = Vec::new();
        let hash = hash_scalars(self.accumulation.as_slice());
        entries.push(LayerHash { name: String::from_str("accumulation"), hash });
        let hash = hash_biome(self.biome.as_slice());
        entries.push(LayerHash { name: String::from_str("biome"), hash });
        let hash = hash_scalars(self.discharge.as_slice());
        entries.push(LayerHash { name: String::from_str("discharge"), hash });
        let hash = hash_scalars(self.elevation.as_slice());
        entries.push(LayerHash { name: String::from_str("elevation"), hash });
        let hash = hash_scalars(self.fertility.as_slice());
        entries.push(LayerHash { name: String::from_str("fertility"), hash });
        let hash = hash_u8(self.flow_dir.as_slice());
        entries.push(LayerHash { name: String::from_str("flow_dir"), hash });
        let hash = hash_u32(self.lake_id.as_slice());
        entries.push(LayerHash { name: String::from_str("lake_id"), hash });
        entries.push(self.mineral_entry(Mineral::Coal));
        entries.push(self.mineral_entry(Mineral::Copper));
        entries.push(self.mineral_entry(Mineral::Gem));
        entries.push(self.mineral_entry(Mineral::Gold));
        entries.push(self.mineral_entry(Mineral::Iron));
        entries.push(self.mineral_entry(Mineral::Tin));
        let hash = hash_bool(self.ocean_mask.as_slice());
        entries.push(LayerHash { name: String::from_str("ocean_mask"), hash });
        let hash = hash_scalars(self.pressure.as_slice());
        entries.push(LayerHash { name: String::from_str("pressure"), hash });
        let hash = hash_province(self.geologic_province.as_slice());
        entries.push(LayerHash { name: String::from_str("province"), hash });
        let hash = hash_scalars(self.rainfall.as_slice());
        entries.push(LayerHash { name: String::from_str("rainfall"), hash });
        let hash = hash_river_class(self.river_class.as_slice());
        entries.push(LayerHash { name: String::from_str("river_class"), hash });
        let hash = hash_rock(self.rock_type.as_slice());
        entries.push(LayerHash { name: String::from_str("rock_type"), hash });
        let hash = hash_strata(self.strata.as_slice());
        entries.push(LayerHash { name: String::from_str("strata"), hash });
        let hash = hash_scalars(self.temperature.as_slice());
        entries.push(LayerHash { name: String::from_str("temperature"), hash });
        let hash = hash_scalars(self.wind_u.as_slice());
        entries.push(LayerHash { name: String::from_str("wind_u"), hash });
        let hash = hash_scalars(self.wind_v.as_slice());
        entries.push(LayerHash { name: String::from_str("wind_v"), hash });
        proof {
            let got = entries_view(entries@);
            let want = self.layer_hashes();
            assert(got.len() == want.len());
            assert forall|i: int| 0 <= i < LAYER_COUNT implies got[i] == want[i] by {
                assert(got[i] == entries@[i]@);
            }
            assert(got =~= want);
            assert forall|i: int| 0 <= i < entries@.len() implies is_hex_digest(
                (#[trigger] entries@[i]).hash@,
            ) by {}
        }
        let checksum = combine(&entries);
        self.diagnostics = Diagnostics { layer_hashes: entries, checksum };
    }

    /// Updating the diagnostics twice with no change to a layer in between
    /// yields the same layer hashes and the same checksum.
    pub proof fn lemma_update_idempotent(first: WorldState, second: WorldState, third: WorldState)
        requires
            first.diagnosed_as(&second),
            second.diagnosed_as(&third),
        ensures
            third.diagnostics.entries() == second.diagnostics.entries(),
            third.diagnostics.checksum@ == second.diagnostics.checksum@,
    {
        assert forall|i: int| 0 <= i < LAYER_COUNT implies second.layer_bytes(i)
            == first.layer_bytes(i) by {}
        assert(second.layer_hashes() =~= first.layer_hashes());
    }

    /// Worlds whose layers are hashed by the same bytes have the same layer
    /// hashes and the same checksum, whatever cursor, timings, parameters and
    /// earlier diagnostics they hold.
    pub proof fn lemma_checksum_deterministic(a: WorldState, b: WorldState)
        requires
            forall|i: int| 0 <= i < LAYER_COUNT ==> a.layer_bytes(i) == b.layer_bytes(i),
        ensures
            a.layer_hashes() == b.layer_hashes(),
            a.checksum() == b.checksum(),
    {
        assert(a.layer_hashes() =~= b.layer_hashes());
    }
}

} // verus!
