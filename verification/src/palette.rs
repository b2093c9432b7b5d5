//! The fixed colours of the categorical layers, as red, green and blue.

use vstd::prelude::*;
use crate::state::{Biome, GeologicProvince, RiverClass, RockType};

verus! {

/// The colour of a biome.
pub open spec fn biome_rgb(biome: Biome) -> (u8, u8, u8) {
    match biome {
        Biome::Ocean => (18, 52, 120),
        Biome::Lake => (42, 98, 190),
        Biome::PolarDesert => (230, 230, 218),
        Biome::Tundra => (176, 190, 156),
        Biome::BorealForest => (66, 102, 63),
        Biome::TemperateGrassland => (158, 186, 102),
        Biome::TemperateForest => (74, 136, 80),
        Biome::Mediterranean => (146, 152, 84),
        Biome::Savanna => (186, 172, 78),
        Biome::TropicalSeasonalForest => (88, 144, 70),
        Biome::TropicalRainforest => (42, 116, 52),
        Biome::HotDesert => (214, 188, 126),
        Biome::Alpine => (136, 136, 140),
        Biome::Wetland => (76, 138, 120),
    }
}

/// The colour of a biome.
pub fn biome_color(biome: Biome) -> (c: [u8; 3])
    ensures
        (c[0], c[1], c[2]) == biome_rgb(biome),
{
    match biome {
        Biome::Ocean => [18, 52, 120],
        Biome::Lake => [42, 98, 190],
        Biome::PolarDesert => [230, 230, 218],
        Biome::Tundra => [176, 190, 156],
        Biome::BorealForest => [66, 102, 63],
        Biome::TemperateGrassland => [158, 186, 102],
        Biome::TemperateForest => [74, 136, 80],
        Biome::Mediterranean => [146, 152, 84],
        Biome::Savanna => [186, 172, 78],
        Biome::TropicalSeasonalForest => [88, 144, 70],
        Biome::TropicalRainforest => [42, 116, 52],
        Biome::HotDesert => [214, 188, 126],
        Biome::Alpine => [136, 136, 140],
        Biome::Wetland => [76, 138, 120],
    }
}

/// The colour of a river class on the river map; cells without a river are
/// black.
pub open spec fn river_rgb(class: RiverClass) -> (u8, u8, u8) {
    match class {
        RiverClass::NoRiver => (0, 0, 0),
        RiverClass::Ephemeral => (90, 170, 255),
        RiverClass::Perennial => (40, 130, 245),
        RiverClass::Major => (0, 60, 220),
    }
}

/// The colour of a river class on the river map.
pub fn river_color(class: RiverClass) -> (c: [u8; 3])
    ensures
        (c[0], c[1], c[2]) == river_rgb(class),
{
    match class {
        RiverClass::NoRiver => [0, 0, 0],
        RiverClass::Ephemeral => [90, 170, 255],
        RiverClass::Perennial => [40, 130, 245],
        RiverClass::Major => [0, 60, 220],
    }
}

/// The colour of a cell on the water map: ocean, else lake, else land.
pub open spec fn water_rgb(ocean: bool, lake_id: u32) -> (u8, u8, u8) {
    if ocean {
        (0, 40, 120)
    } else if lake_id > 0 {
        (50, 120, 220)
    } else {
        (20, 20, 20)
    }
}

/// The colour of a cell on the water map.
pub fn water_color(ocean: bool, lake_id: u32) -> (c: [u8; 3])
    ensures
        (c[0], c[1], c[2]) == water_rgb(ocean, lake_id),
{
    if ocean {
        [0, 40, 120]
    } else if lake_id > 0 {
        [50, 120, 220]
    } else {
        [20, 20, 20]
    }
}

/// The colour of a province.
pub open spec fn province_rgb(province: GeologicProvince) -> (u8, u8, u8) {
    match province {
        GeologicProvince::Oceanic => (30, 80, 130),
        GeologicProvince::Craton => (132, 112, 95),
        GeologicProvince::Orogen => (170, 110, 90),
        GeologicProvince::Basin => (100, 130, 95),
        GeologicProvince::VolcanicArc => (182, 70, 52),
    }
}

/// The colour of a province.
pub fn province_color(province: GeologicProvince) -> (c: [u8; 3])
    ensures
        (c[0], c[1], c[2]) == province_rgb(province),
{
    match province {
        GeologicProvince::Oceanic => [30, 80, 130],
        GeologicProvince::Craton => [132, 112, 95],
        GeologicProvince::Orogen => [170, 110, 90],
        GeologicProvince::Basin => [100, 130, 95],
        GeologicProvince::VolcanicArc => [182, 70, 52],
    }
}

/// The colour of a rock.
pub open spec fn rock_rgb(rock: RockType) -> (u8, u8, u8) {
    match rock {
        RockType::Basalt => (65, 65, 72),
        RockType::Gabbro => (50, 58, 66),
        RockType::Granite => (186, 175, 164),
        RockType::Sandstone => (194, 168, 120),
        RockType::Limestone => (204, 198, 160),
        RockType::Schist => (130, 122, 140),
        RockType::Gneiss => (144, 136, 128),
        RockType::Shale => (104, 102, 94),
        RockType::Rhyolite => (176, 130, 120),
    }
}

/// The colour of a rock.
pub fn rock_color(rock: RockType) -> (c: [u8; 3])
    ensures
        (c[0], c[1], c[2]) == rock_rgb(rock),
{
    match rock {
        RockType::Basalt => [65, 65, 72],
        RockType::Gabbro => [50, 58, 66],
        RockType::Granite => [186, 175, 164],
        RockType::Sandstone => [194, 168, 120],
        RockType::Limestone => [204, 198, 160],
        RockType::Schist => [130, 122, 140],
        RockType::Gneiss => [144, 136, 128],
        RockType::Shale => [104, 102, 94],
        RockType::Rhyolite => [176, 130, 120],
    }
}

/// The colour of a cell on a mineral map: gold where the mineral occurs,
/// black elsewhere.
pub open spec fn mineral_rgb(present: bool) -> (u8, u8, u8) {
    if present {
        (240, 200, 30)
    } else {
        (0, 0, 0)
    }
}

/// The colour of a cell on a mineral map.
pub fn mineral_color(present: bool) -> (c: [u8; 3])
    ensures
        (c[0], c[1], c[2]) == mineral_rgb(present),
{
    if present {
        [240, 200, 30]
    } else {
        [0, 0, 0]
    }
}

} // verus!
