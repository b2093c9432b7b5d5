//! River classes by discharge.

use vstd::prelude::*;
use crate::grid::Grid2D;
use crate::params::HydroFinalizeParams;
use crate::scalar::Scalar;
use crate::state::RiverClass;

verus! {

/// The river class of a land cell with discharge `q`: the highest class
/// whose threshold `q` reaches.
pub open spec fn river_class_of(q: Scalar, hydro: HydroFinalizeParams) -> RiverClass {
    if q.spec_ge(hydro.major_threshold) {
        RiverClass::Major
    } else if q.spec_ge(hydro.perennial_threshold) {
        RiverClass::Perennial
    } else if q.spec_ge(hydro.ephemeral_threshold) {
        RiverClass::Ephemeral
    } else {
        RiverClass::NoRiver
    }
}

/// Classifies a land cell by its discharge.
pub fn classify_river(q: Scalar, hydro: &HydroFinalizeParams) -> (class: RiverClass)
    ensures
        class == river_class_of(q, *hydro),
{
    if q.ge(hydro.major_threshold) {
        RiverClass::Major
    } else if q.ge(hydro.perennial_threshold) {
        RiverClass::Perennial
    } else if q.ge(hydro.ephemeral_threshold) {
        RiverClass::Ephemeral
    } else {
        RiverClass::NoRiver
    }
}

/// Classifies every cell: ocean cells carry no river, land cells the class
/// of their discharge.
pub fn classify_rivers(
    discharge: &Grid2D<Scalar>,
    ocean_mask: &Grid2D<bool>,
    hydro: &HydroFinalizeParams,
) -> (rivers: Grid2D<RiverClass>)
    requires
        discharge.wf(),
        ocean_mask.wf(),
        ocean_mask.same_shape(discharge),
    ensures
        rivers.wf(),
        rivers.same_shape(discharge),
        forall|x: int, y: int|
            discharge.has(x, y) ==> #[trigger] rivers.at(x, y) == if ocean_mask.at(x, y) {
                RiverClass::NoRiver
            } else {
                river_class_of(discharge.at(x, y), *hydro)
            },
        forall|x: int, y: int|
            discharge.has(x, y) && #[trigger] rivers.at(x, y) != RiverClass::NoRiver
                ==> !ocean_mask.at(x, y),
{
    let w: usize = discharge.width();
    let h: usize = discharge.height();
    let n: usize = discharge.len();
    let mut rivers: Grid2D<RiverClass> = Grid2D::new(w, h, RiverClass::NoRiver);
    let mut y: usize = 0;
    while y < h
        invariant
            y <= h,
            w == discharge.spec_width(),
            h == discharge.spec_height(),
            discharge.wf(),
            ocean_mask.wf(),
            rivers.wf(),
            ocean_mask.same_shape(discharge),
            rivers.same_shape(discharge),
            forall|x2: int, y2: int|
                discharge.has(x2, y2) ==> #[trigger] rivers.at(x2, y2) == if y2 >= y
                    || ocean_mask.at(x2, y2) {
                    RiverClass::NoRiver
                } else {
                    river_class_of(discharge.at(x2, y2), *hydro)
                },
        decreases h - y,
    {
        let mut x: usize = 0;
        while x < w
            invariant
                y < h,
                x <= w,
                w == discharge.spec_width(),
                h == discharge.spec_height(),
                discharge.wf(),
                ocean_mask.wf(),
                rivers.wf(),
                ocean_mask.same_shape(discharge),
                rivers.same_shape(discharge),
                forall|x2: int, y2: int|
                    discharge.has(x2, y2) ==> #[trigger] rivers.at(x2, y2) == if y2 > y || (y2
                        == y && x2 >= x) || ocean_mask.at(x2, y2) {
                        RiverClass::NoRiver
                    } else {
                        river_class_of(discharge.at(x2, y2), *hydro)
                    },
            decreases w - x,
        {
            if !*ocean_mask.get(x, y) {
                let class = classify_river(*discharge.get(x, y), hydro);
                rivers.set(x, y, class);
            }
            x += 1;
        }
        y += 1;
    }
    rivers
}

/// A land cell whose discharge reaches the major threshold is a major river;
/// with all three thresholds at zero, so is every land cell whose discharge
/// is a number that is not negative.
pub proof fn lemma_major_rivers(q: Scalar, hydro: HydroFinalizeParams)
    ensures
        q.spec_ge(hydro.major_threshold) ==> river_class_of(q, hydro) == RiverClass::Major,
        hydro.major_threshold.rank() == 0 && !hydro.major_threshold.is_nan() && !q.is_nan()
            && q.rank() >= 0 ==> river_class_of(q, hydro) == RiverClass::Major,
{
}

} // verus!
