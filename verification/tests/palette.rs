use worldgen_core::palette::{
    biome_color, mineral_color, province_color, river_color, rock_color, water_color,
};
use worldgen_core::state::{Biome, GeologicProvince, RiverClass, RockType};

#[test]
fn biome_colours() {
    assert_eq!(biome_color(Biome::Ocean), [18, 52, 120]);
    assert_eq!(biome_color(Biome::Lake), [42, 98, 190]);
    assert_eq!(biome_color(Biome::PolarDesert), [230, 230, 218]);
    assert_eq!(biome_color(Biome::Tundra), [176, 190, 156]);
    assert_eq!(biome_color(Biome::BorealForest), [66, 102, 63]);
    assert_eq!(biome_color(Biome::TemperateGrassland), [158, 186, 102]);
    assert_eq!(biome_color(Biome::TemperateForest), [74, 136, 80]);
    assert_eq!(biome_color(Biome::Mediterranean), [146, 152, 84]);
    assert_eq!(biome_color(Biome::Savanna), [186, 172, 78]);
    assert_eq!(biome_color(Biome::TropicalSeasonalForest), [88, 144, 70]);
    assert_eq!(biome_color(Biome::TropicalRainforest), [42, 116, 52]);
    assert_eq!(biome_color(Biome::HotDesert), [214, 188, 126]);
    assert_eq!(biome_color(Biome::Alpine), [136, 136, 140]);
    assert_eq!(biome_color(Biome::Wetland), [76, 138, 120]);
}

#[test]
fn water_and_river_colours() {
    assert_eq!(river_color(RiverClass::NoRiver), [0, 0, 0]);
    assert_eq!(river_color(RiverClass::Ephemeral), [90, 170, 255]);
    assert_eq!(river_color(RiverClass::Perennial), [40, 130, 245]);
    assert_eq!(river_color(RiverClass::Major), [0, 60, 220]);
    assert_eq!(water_color(true, 0), [0, 40, 120]);
    assert_eq!(water_color(true, 3), [0, 40, 120]);
    assert_eq!(water_color(false, 3), [50, 120, 220]);
    assert_eq!(water_color(false, 0), [20, 20, 20]);
}

#[test]
fn geology_colours() {
    assert_eq!(province_color(GeologicProvince::Oceanic), [30, 80, 130]);
    assert_eq!(province_color(GeologicProvince::Craton), [132, 112, 95]);
    assert_eq!(province_color(GeologicProvince::Orogen), [170, 110, 90]);
    assert_eq!(province_color(GeologicProvince::Basin), [100, 130, 95]);
    assert_eq!(province_color(GeologicProvince::VolcanicArc), [182, 70, 52]);
    assert_eq!(rock_color(RockType::Basalt), [65, 65, 72]);
    assert_eq!(rock_color(RockType::Gabbro), [50, 58, 66]);
    assert_eq!(rock_color(RockType::Granite), [186, 175, 164]);
    assert_eq!(rock_color(RockType::Sandstone), [194, 168, 120]);
    assert_eq!(rock_color(RockType::Limestone), [204, 198, 160]);
    assert_eq!(rock_color(RockType::Schist), [130, 122, 140]);
    assert_eq!(rock_color(RockType::Gneiss), [144, 136, 128]);
    assert_eq!(rock_color(RockType::Shale), [104, 102, 94]);
    assert_eq!(rock_color(RockType::Rhyolite), [176, 130, 120]);
    assert_eq!(mineral_color(true), [240, 200, 30]);
    assert_eq!(mineral_color(false), [0, 0, 0]);
}
