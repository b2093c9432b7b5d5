//! Generation parameters and their admissible ranges.

use vstd::prelude::*;
use crate::scalar::Scalar;

verus! {

/// Bit pattern of `0.0`.
pub const ZERO_BITS: u32 = 0;

/// Bit pattern of `1.0`.
pub const ONE_BITS: u32 = 0x3F80_0000;

/// The supported square map sizes.
#[derive(Clone, Copy, Debug, PartialEq, Eq, Structural)]
pub enum MapSizePreset {
    S256,
    S512,
    S1024,
}

impl MapSizePreset {
    /// Side length of the square map.
    pub open spec fn side(self) -> usize {
        match self {
            MapSizePreset::S256 => 256,
            MapSizePreset::S512 => 512,
            MapSizePreset::S1024 => 1024,
        }
    }

    /// Width and height of the map.
    pub fn dimensions(self) -> (d: (usize, usize))
        ensures
            d.0 == self.side(),
            d.1 == self.side(),
    {
        match self {
            MapSizePreset::S256 => (256, 256),
            MapSizePreset::S512 => (512, 512),
            MapSizePreset::S1024 => (1024, 1024),
        }
    }
}

/// Tuning of the base-field stage.
#[derive(Clone, Copy, Debug, PartialEq, Eq, Structural)]
pub struct BaseFieldParams {
    pub sea_level: Scalar,
    pub octaves: u32,
    pub frequency: Scalar,
    pub warp_strength: Scalar,
    pub lapse_rate_c_per_km: Scalar,
}

/// Tuning of the erosion stage.
#[derive(Clone, Copy, Debug, PartialEq, Eq, Structural)]
pub struct ErosionParams {
    pub iterations: u32,
    pub erosion_rate: Scalar,
    pub deposition_rate: Scalar,
    pub thermal_rate: Scalar,
    pub min_slope: Scalar,
}

/// Tuning of the biome stage.
#[derive(Clone, Copy, Debug, PartialEq, Eq, Structural)]
pub struct BiomeParams {
    pub smoothing_passes: u32,
    pub wetness_weight: Scalar,
}

/// Discharge thresholds of the three river classes.
#[derive(Clone, Copy, Debug, PartialEq, Eq, Structural)]
pub struct HydroFinalizeParams {
    pub ephemeral_threshold: Scalar,
    pub perennial_threshold: Scalar,
    pub major_threshold: Scalar,
}

/// Tuning of the geology stage.
#[derive(Clone, Copy, Debug, PartialEq, Eq, Structural)]
pub struct GeologyParams {
    pub strata_layers: u8,
    pub fault_strength: Scalar,
    pub ore_richness: Scalar,
}

/// Everything a pipeline run depends on.
#[derive(Clone, Copy, Debug, PartialEq, Eq, Structural)]
pub struct GenerationParams {
    pub seed: u64,
    pub size: MapSizePreset,
    pub base: BaseFieldParams,
    pub erosion: ErosionParams,
    pub biomes: BiomeParams,
    pub hydro: HydroFinalizeParams,
    pub geology: GeologyParams,
}

/// The parameter that lies outside its admissible range.
#[derive(Clone, Copy, Debug, PartialEq, Eq, Structural)]
pub enum ParamError {
    SeaLevel,
    Frequency,
    WarpStrength,
    LapseRate,
    ErosionRate,
    DepositionRate,
    ThermalRate,
    MinSlope,
    WetnessWeight,
    RiverThresholds,
    FaultStrength,
    OreRichness,
}

/// `0 <= v <= 1`; false for a NaN.
pub open spec fn in_unit(v: Scalar) -> bool {
    (Scalar { bits: ZERO_BITS }).spec_le(v) && v.spec_le(Scalar { bits: ONE_BITS })
}

/// `v >= 0`; false for a NaN.
pub open spec fn non_negative(v: Scalar) -> bool {
    (Scalar { bits: ZERO_BITS }).spec_le(v)
}

/// `v > 0`; false for a NaN.
pub open spec fn positive(v: Scalar) -> bool {
    (Scalar { bits: ZERO_BITS }).spec_lt(v)
}

fn check_unit(v: Scalar) -> (r: bool)
    ensures
        r == in_unit(v),
{
    let zero = Scalar { bits: ZERO_BITS };
    let one = Scalar { bits: ONE_BITS };
    zero.le(v) && v.le(one)
}

fn check_non_negative(v: Scalar) -> (r: bool)
    ensures
        r == non_negative(v),
{
    let zero = Scalar { bits: ZERO_BITS };
    zero.le(v)
}

fn check_positive(v: Scalar) -> (r: bool)
    ensures
        r == positive(v),
{
    let zero = Scalar { bits: ZERO_BITS };
    zero.lt(v)
}

impl GenerationParams {
    /// The first parameter, in declaration order, that is out of range.
    pub open spec fn first_violation(&self) -> Option<ParamError> {
        if !in_unit(self.base.sea_level) {
            Some(ParamError::SeaLevel)
        } else if !positive(self.base.frequency) {
            Some(ParamError::Frequency)
        } else if !non_negative(self.base.warp_strength) {
            Some(ParamError::WarpStrength)
        } else if !non_negative(self.base.lapse_rate_c_per_km) {
            Some(ParamError::LapseRate)
        } else if !in_unit(self.erosion.erosion_rate) {
            Some(ParamError::ErosionRate)
        } else if !in_unit(self.erosion.deposition_rate) {
            Some(ParamError::DepositionRate)
        } else if !in_unit(self.erosion.thermal_rate) {
            Some(ParamError::ThermalRate)
        } else if !non_negative(self.erosion.min_slope) {
            Some(ParamError::MinSlope)
        } else if !in_unit(self.biomes.wetness_weight) {
            Some(ParamError::WetnessWeight)
        } else if !(self.hydro.ephemeral_threshold.spec_le(self.hydro.perennial_threshold)
            && self.hydro.perennial_threshold.spec_le(self.hydro.major_threshold)) {
            Some(ParamError::RiverThresholds)
        } else if !in_unit(self.geology.fault_strength) {
            Some(ParamError::FaultStrength)
        } else if !in_unit(self.geology.ore_richness) {
            Some(ParamError::OreRichness)
        } else {
            None
        }
    }

    /// Every parameter lies in its admissible range: sea level, the three
    /// erosion rates, wetness weight, fault strength and ore richness in
    /// `[0, 1]`; frequency positive; warp strength, lapse rate and minimum
    /// slope non-negative; the river thresholds in ascending order.
    pub open spec fn valid(&self) -> bool {
        &&& in_unit(self.base.sea_level)
        &&& positive(self.base.frequency)
        &&& non_negative(self.base.warp_strength)
        &&& non_negative(self.base.lapse_rate_c_per_km)
        &&& in_unit(self.erosion.erosion_rate)
        &&& in_unit(self.erosion.deposition_rate)
        &&& in_unit(self.erosion.thermal_rate)
        &&& non_negative(self.erosion.min_slope)
        &&& in_unit(self.biomes.wetness_weight)
        &&& self.hydro.ephemeral_threshold.spec_le(self.hydro.perennial_threshold)
        &&& self.hydro.perennial_threshold.spec_le(self.hydro.major_threshold)
        &&& in_unit(self.geology.fault_strength)
        &&& in_unit(self.geology.ore_richness)
    }

    /// Accepts the parameters exactly when all of them are in range, and
    /// otherwise names the first one that is not.
    pub fn validate(&self) -> (r: Result<(), ParamError>)
        ensures
            r is Ok <==> self.valid(),
            self.first_violation() == match r {
                Ok(_) => None,
                Err(e) => Some(e),
            },
    {
        if !check_unit(self.base.sea_level) {
            Err(ParamError::SeaLevel)
        } else if !check_positive(self.base.frequency) {
            Err(ParamError::Frequency)
        } else if !check_non_negative(self.base.warp_strength) {
            Err(ParamError::WarpStrength)
        } else if !check_non_negative(self.base.lapse_rate_c_per_km) {
            Err(ParamError::LapseRate)
        } else if !check_unit(self.erosion.erosion_rate) {
            Err(ParamError::ErosionRate)
        } else if !check_unit(self.erosion.deposition_rate) {
            Err(ParamError::DepositionRate)
        } else if !check_unit(self.erosion.thermal_rate) {
            Err(ParamError::ThermalRate)
        } else if !check_non_negative(self.erosion.min_slope) {
            Err(ParamError::MinSlope)
        } else if !check_unit(self.biomes.wetness_weight) {
            Err(ParamError::WetnessWeight)
        } else if !(self.hydro.ephemeral_threshold.le(self.hydro.perennial_threshold)
            && self.hydro.perennial_threshold.le(self.hydro.major_threshold)) {
            Err(ParamError::RiverThresholds)
        } else if !check_unit(self.geology.fault_strength) {
            Err(ParamError::FaultStrength)
        } else if !check_unit(self.geology.ore_richness) {
            Err(ParamError::OreRichness)
        } else {
            Ok(())
        }
    }

    /// Octave count of the continental noise: at least one.
    pub fn effective_octaves(&self) -> (n: u32)
        ensures
            n >= 1,
            n == if self.base.octaves == 0 { 1 } else { self.base.octaves },
    {
        if self.base.octaves == 0 {
            1
        } else {
            self.base.octaves
        }
    }

    /// Number of strata per cell: at least three.
    pub fn effective_strata_layers(&self) -> (n: u8)
        ensures
            n >= 3,
            n == if self.geology.strata_layers < 3 { 3 } else { self.geology.strata_layers },
    {
        if self.geology.strata_layers < 3 {
            3
        } else {
            self.geology.strata_layers
        }
    }
}

/// The default parameters: seed 42 on a 512 map, sea level 0.5, six octaves
/// at frequency 2.1, 24 erosion iterations, two smoothing passes, river
/// thresholds 80 / 260 / 900 and six strata.
pub open spec fn default_params() -> GenerationParams {
    GenerationParams {
        seed: 42,
        size: MapSizePreset::S512,
        base: BaseFieldParams {
            sea_level: Scalar { bits: 0x3F00_0000 },
            octaves: 6,
            frequency: Scalar { bits: 0x4006_6666 },
            warp_strength: Scalar { bits: 0x3CF5_C28F },
            lapse_rate_c_per_km: Scalar { bits: 0x40D0_0000 },
        },
        erosion: ErosionParams {
            iterations: 24,
            erosion_rate: Scalar { bits: 0x3D0F_5C29 },
            deposition_rate: Scalar { bits: 0x3CA3_D70A },
            thermal_rate: Scalar { bits: 0x3C75_C28F },
            min_slope: Scalar { bits: 0x3A51_B717 },
        },
        biomes: BiomeParams { smoothing_passes: 2, wetness_weight: Scalar { bits: 0x3ECC_CCCD } },
        hydro: HydroFinalizeParams {
            ephemeral_threshold: Scalar { bits: 0x42A0_0000 },
            perennial_threshold: Scalar { bits: 0x4382_0000 },
            major_threshold: Scalar { bits: 0x4461_0000 },
        },
        geology: GeologyParams {
            strata_layers: 6,
            fault_strength: Scalar { bits: 0x3F00_0000 },
            ore_richness: Scalar { bits: 0x3EB3_3333 },
        },
    }
}

impl Default for GenerationParams {
    fn default() -> (p: GenerationParams)
        ensures
            p == default_params(),
    {
        GenerationParams {
            seed: 42,
            size: MapSizePreset::S512,
            base: BaseFieldParams {
                // 0.5, 2.1, 0.03, 6.5
                sea_level: Scalar { bits: 0x3F00_0000 },
                octaves: 6,
                frequency: Scalar { bits: 0x4006_6666 },
                warp_strength: Scalar { bits: 0x3CF5_C28F },
                lapse_rate_c_per_km: Scalar { bits: 0x40D0_0000 },
            },
            erosion: ErosionParams {
                // 0.035, 0.02, 0.015, 0.0008
                iterations: 24,
                erosion_rate: Scalar { bits: 0x3D0F_5C29 },
                deposition_rate: Scalar { bits: 0x3CA3_D70A },
                thermal_rate: Scalar { bits: 0x3C75_C28F },
                min_slope: Scalar { bits: 0x3A51_B717 },
            },
            // 0.4
            biomes: BiomeParams {
                smoothing_passes: 2,
                wetness_weight: Scalar { bits: 0x3ECC_CCCD },
            },
            hydro: HydroFinalizeParams {
                // 80, 260, 900
                ephemeral_threshold: Scalar { bits: 0x42A0_0000 },
                perennial_threshold: Scalar { bits: 0x4382_0000 },
                major_threshold: Scalar { bits: 0x4461_0000 },
            },
            geology: GeologyParams {
                // 0.5, 0.35
                strata_layers: 6,
                fault_strength: Scalar { bits: 0x3F00_0000 },
                ore_richness: Scalar { bits: 0x3EB3_3333 },
            },
        }
    }
}

/// The default parameters are admissible.
pub proof fn lemma_default_valid()
    ensures
        default_params().valid(),
{
}

} // verus!
