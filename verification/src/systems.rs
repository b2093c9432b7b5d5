//! The decision logic of the pipeline stages.

pub mod biomes;
pub mod geology;
pub mod hydro_finalize;
