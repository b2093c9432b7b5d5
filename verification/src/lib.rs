//! Deterministic raster world generation: the integer and decision logic of a
//! five-stage pipeline (base fields, erosion and hydrology, biomes, hydrology
//! finalisation, geology), its world state and its reproducibility checksum.
//!
//! Real-valued layers are stored as IEEE-754 binary32 bit patterns
//! ([`scalar::Scalar`]); the library orders and hashes them but never does
//! arithmetic on them.

pub mod digest;
pub mod grid;
pub mod neighbors;
pub mod order;
pub mod palette;
pub mod params;
pub mod region;
pub mod rng;
pub mod scalar;
pub mod scheduler;
pub mod state;
pub mod systems;
