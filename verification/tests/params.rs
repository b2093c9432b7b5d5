use worldgen_core::params::{GenerationParams, MapSizePreset, ParamError};
use worldgen_core::scalar::Scalar;

fn s(v: f32) -> Scalar {
    Scalar::from_bits(v.to_bits())
}

#[test]
fn preset_dimensions() {
    assert_eq!(MapSizePreset::S256.dimensions(), (256, 256));
    assert_eq!(MapSizePreset::S512.dimensions(), (512, 512));
    assert_eq!(MapSizePreset::S1024.dimensions(), (1024, 1024));
}

#[test]
fn default_parameters() {
    let p = GenerationParams::default();
    assert_eq!(p.seed, 42);
    assert_eq!(p.size, MapSizePreset::S512);
    assert_eq!(p.base.sea_level, s(0.5));
    assert_eq!(p.base.octaves, 6);
    assert_eq!(p.base.frequency, s(2.1));
    assert_eq!(p.base.warp_strength, s(0.03));
    assert_eq!(p.base.lapse_rate_c_per_km, s(6.5));
    assert_eq!(p.erosion.iterations, 24);
    assert_eq!(p.erosion.erosion_rate, s(0.035));
    assert_eq!(p.erosion.deposition_rate, s(0.02));
    assert_eq!(p.erosion.thermal_rate, s(0.015));
    assert_eq!(p.erosion.min_slope, s(0.0008));
    assert_eq!(p.biomes.smoothing_passes, 2);
    assert_eq!(p.biomes.wetness_weight, s(0.4));
    assert_eq!(p.hydro.ephemeral_threshold, s(80.0));
    assert_eq!(p.hydro.perennial_threshold, s(260.0));
    assert_eq!(p.hydro.major_threshold, s(900.0));
    assert_eq!(p.geology.strata_layers, 6);
    assert_eq!(p.geology.fault_strength, s(0.5));
    assert_eq!(p.geology.ore_richness, s(0.35));
}

#[test]
fn default_parameters_are_valid() {
    assert_eq!(GenerationParams::default().validate(), Ok(()));
}

#[test]
fn boundary_values_are_valid() {
    let mut p = GenerationParams::default();
    p.base.sea_level = s(0.0);
    p.base.warp_strength = s(0.0);
    p.erosion.erosion_rate = s(1.0);
    p.hydro.ephemeral_threshold = s(0.0);
    p.hydro.perennial_threshold = s(0.0);
    p.hydro.major_threshold = s(0.0);
    p.geology.ore_richness = s(1.0);
    p.base.octaves = 0;
    p.geology.strata_layers = 0;
    assert_eq!(p.validate(), Ok(()));
    p.base.sea_level = s(0.95);
    assert_eq!(p.validate(), Ok(()));
}

#[test]
fn each_violation_is_named() {
    let d = GenerationParams::default();
    let mut p = d;
    p.base.sea_level = s(1.5);
    assert_eq!(p.validate(), Err(ParamError::SeaLevel));
    p = d;
    p.base.sea_level = s(f32::NAN);
    assert_eq!(p.validate(), Err(ParamError::SeaLevel));
    p = d;
    p.base.frequency = s(0.0);
    assert_eq!(p.validate(), Err(ParamError::Frequency));
    p = d;
    p.base.warp_strength = s(-0.1);
    assert_eq!(p.validate(), Err(ParamError::WarpStrength));
    p = d;
    p.base.lapse_rate_c_per_km = s(-1.0);
    assert_eq!(p.validate(), Err(ParamError::LapseRate));
    p = d;
    p.erosion.erosion_rate = s(-0.01);
    assert_eq!(p.validate(), Err(ParamError::ErosionRate));
    p = d;
    p.erosion.deposition_rate = s(1.01);
    assert_eq!(p.validate(), Err(ParamError::DepositionRate));
    p = d;
    p.erosion.thermal_rate = s(2.0);
    assert_eq!(p.validate(), Err(ParamError::ThermalRate));
    p = d;
    p.erosion.min_slope = s(-0.5);
    assert_eq!(p.validate(), Err(ParamError::MinSlope));
    p = d;
    p.biomes.wetness_weight = s(1.2);
    assert_eq!(p.validate(), Err(ParamError::WetnessWeight));
    p = d;
    p.hydro.perennial_threshold = s(50.0);
    assert_eq!(p.validate(), Err(ParamError::RiverThresholds));
    p = d;
    p.hydro.major_threshold = s(100.0);
    assert_eq!(p.validate(), Err(ParamError::RiverThresholds));
    p = d;
    p.geology.fault_strength = s(-0.2);
    assert_eq!(p.validate(), Err(ParamError::FaultStrength));
    p = d;
    p.geology.ore_richness = s(3.0);
    assert_eq!(p.validate(), Err(ParamError::OreRichness));
}

#[test]
fn first_violation_wins() {
    let mut p = GenerationParams::default();
    p.geology.ore_richness = s(3.0);
    p.base.frequency = s(-1.0);
    assert_eq!(p.validate(), Err(ParamError::Frequency));
    p.base.sea_level = s(-0.5);
    assert_eq!(p.validate(), Err(ParamError::SeaLevel));
}

#[test]
fn documented_clamps() {
    let mut p = GenerationParams::default();
    assert_eq!(p.effective_octaves(), 6);
    assert_eq!(p.effective_strata_layers(), 6);
    p.base.octaves = 0;
    p.geology.strata_layers = 2;
    assert_eq!(p.effective_octaves(), 1);
    assert_eq!(p.effective_strata_layers(), 3);
    p.geology.strata_layers = 255;
    assert_eq!(p.effective_strata_layers(), 255);
}
