//! Hydrology finalisation: the ocean mask, river classes and endorheic lakes.

pub mod flood;
pub mod frontier;
pub mod lakes;
pub mod ocean;
pub mod rivers;

pub use flood::{
    basin, flood_lake_basin, flood_succeeds, flooded, floodable, foreign, hits, lake_at, wettable,
};
pub use lakes::{
    identify_lakes, is_pit, is_strict_local_pit, labelled, next_id, LakeSurvey, LAKE_MAX_CELLS,
    MIN_INFLOW_BITS,
};
pub use ocean::{is_ocean, mark_ocean_component, shore, submerged};
pub use rivers::{classify_river, classify_rivers, river_class_of};

use vstd::prelude::*;
use crate::grid::Grid2D;
use crate::params::GenerationParams;
use crate::scalar::Scalar;
use crate::state::{fits, RiverClass, WorldState};

verus! {

/// Runs the stage: marks the ocean from the elevation and the sea level,
/// classifies the rivers from the discharge, and identifies the lakes.
/// `pit_rim` and `flood_level` are the two rasters that lake identification
/// reads besides the world's own layers. Only the ocean mask, the river
/// classes and the lake ids change.
pub fn run(
    state: &mut WorldState,
    params: &GenerationParams,
    pit_rim: &Grid2D<Scalar>,
    flood_level: &Grid2D<Scalar>,
)
    requires
        old(state).wf(),
        fits(pit_rim, old(state).width, old(state).height),
        fits(flood_level, old(state).width, old(state).height),
    ensures
        final(state).wf(),
        *final(state) == (WorldState {
            ocean_mask: final(state).ocean_mask,
            river_class: final(state).river_class,
            lake_id: final(state).lake_id,
            ..*old(state)
        }),
        forall|x: int, y: int|
            old(state).elevation.has(x, y) ==> #[trigger] final(state).ocean_mask.at(x, y)
                == is_ocean(&old(state).elevation, params.base.sea_level, (x, y)),
        forall|x: int, y: int|
            old(state).elevation.has(x, y) ==> #[trigger] final(state).river_class.at(x, y)
                == if final(state).ocean_mask.at(x, y) {
                RiverClass::NoRiver
            } else {
                river_class_of(old(state).discharge.at(x, y), params.hydro)
            },
        final(state).lake_id@ == (LakeSurvey {
            elevation: &old(state).elevation,
            ocean_mask: &final(state).ocean_mask,
            accumulation: &old(state).accumulation,
            pit_rim,
            flood_level,
            sea_level: params.base.sea_level,
        }).lakes(),
{
    let ocean = mark_ocean_component(&state.elevation, params.base.sea_level);
    let rivers = classify_rivers(&state.discharge, &ocean, &params.hydro);
    let survey = LakeSurvey {
        elevation: &state.elevation,
        ocean_mask: &ocean,
        accumulation: &state.accumulation,
        pit_rim,
        flood_level,
        sea_level: params.base.sea_level,
    };
    let lakes = identify_lakes(&survey);
    state.ocean_mask = ocean;
    state.river_class = rivers;
    state.lake_id = lakes;
}

} // verus!
