//! The pipeline cursor: which stage runs next, and what a finished stage
//! leaves in the world state.
//!
//! A stage is run in three moves: [`begin_step`] checks and stores the
//! parameters, the stage's kernels fill its layers, and [`finish_step`]
//! advances the cursor, records the time taken and refreshes the diagnostics.

use vstd::prelude::*;
use crate::params::{GenerationParams, ParamError};
use crate::state::{Millis, Step, WorldState, MINERAL_COUNT, STEP_COUNT};

verus! {

/// The stage that follows the cursor: the first stage when nothing has run,
/// nothing once geology has run.
pub open spec fn step_after(cursor: Option<Step>) -> Option<Step> {
    match cursor {
        None => Some(Step::BaseFields),
        Some(Step::BaseFields) => Some(Step::ErosionHydrology),
        Some(Step::ErosionHydrology) => Some(Step::Biomes),
        Some(Step::Biomes) => Some(Step::HydroFinalize),
        Some(Step::HydroFinalize) => Some(Step::Geology),
        Some(Step::Geology) => None,
    }
}

/// The stage to run next, if any.
pub fn next_step(cursor: Option<Step>) -> (next: Option<Step>)
    ensures
        next == step_after(cursor),
{
    match cursor {
        None => Some(Step::BaseFields),
        Some(Step::BaseFields) => Some(Step::ErosionHydrology),
        Some(Step::ErosionHydrology) => Some(Step::Biomes),
        Some(Step::Biomes) => Some(Step::HydroFinalize),
        Some(Step::HydroFinalize) => Some(Step::Geology),
        Some(Step::Geology) => None,
    }
}

/// The cursor after one request to run the next stage: it moves to that
/// stage, and stays where it is when the pipeline is complete.
pub open spec fn advanced(cursor: Option<Step>) -> Option<Step> {
    match step_after(cursor) {
        Some(step) => Some(step),
        None => cursor,
    }
}

/// The cursor of a fresh world after `n` requests to run the next stage.
pub open spec fn cursor_after(n: nat) -> Option<Step>
    decreases n,
{
    if n == 0 {
        None
    } else {
        advanced(cursor_after((n - 1) as nat))
    }
}

/// After `n` requests on a fresh world the cursor stands on the `n`-th stage
/// of the canonical order; from the fifth request on it stands on geology
/// and no stage is left to run.
pub proof fn lemma_cursor_after(n: nat)
    ensures
        1 <= n <= 5 ==> cursor_after(n) == Some(Step::ALL[n - 1]),
        1 <= n <= 5 ==> cursor_after(n).unwrap().ordinal() == n,
        n >= 5 ==> cursor_after(n) == Some(Step::Geology) && step_after(cursor_after(n)) is None,
        n < 5 ==> step_after(cursor_after(n)) == Some(Step::ALL[n as int]),
    decreases n,
{
    if n > 0 {
        lemma_cursor_after((n - 1) as nat);
    }
}

/// Running the stages in the canonical order leaves the cursor on geology,
/// and each stage is the one that follows the cursor left by the one before.
pub proof fn lemma_canonical_order()
    ensures
        step_after(None) == Some(Step::ALL[0]),
        forall|i: int| 0 <= i < 4 ==> step_after(Some(#[trigger] Step::ALL[i])) == Some(Step::ALL[i + 1]),
        step_after(Some(Step::ALL[4])) is None,
        Step::ALL[4] == Step::Geology,
        forall|i: int| 0 <= i < 5 ==> (#[trigger] Step::ALL[i]).ordinal() == i + 1,
{
}

/// Enters a stage: admissible parameters are stored in the world, anything
/// else is refused and leaves the world as it was.
pub fn begin_step(state: &mut WorldState, params: &GenerationParams) -> (r: Result<(), ParamError>)
    ensures
        r is Ok <==> params.valid(),
        r is Ok ==> *final(state) == (WorldState { params: *params, ..*old(state) }),
        r is Err ==> *final(state) == *old(state) && params.first_violation() == Some(r->Err_0),
{
    match params.validate() {
        Ok(()) => {
            state.params = *params;
            Ok(())
        },
        Err(e) => Err(e),
    }
}

/// Leaves a stage: the cursor moves to `step`, the time taken is recorded in
/// the stage's slot, and the diagnostics are brought up to date.
pub fn finish_step(state: &mut WorldState, step: Step, elapsed: Millis)
    requires
        old(state).mineral_masks@.len() == MINERAL_COUNT,
        old(state).step_timings_ms@.len() == STEP_COUNT,
    ensures
        final(state).current_step == Some(step),
        final(state).step_timings_ms@ == old(state).step_timings_ms@.update(
            step.ordinal() - 1,
            Some(elapsed),
        ),
        (WorldState {
            current_step: Some(step),
            step_timings_ms: final(state).step_timings_ms,
            ..*old(state)
        }).diagnosed_as(final(state)),
{
    state.current_step = Some(step);
    let slot: usize = step.index() - 1;
    state.step_timings_ms[slot] = Some(elapsed);
    state.update_diagnostics();
}

} // verus!
