use worldgen_core::grid::Grid2D;
use worldgen_core::params::HydroFinalizeParams;
use worldgen_core::rng::{hash_2d, UNIT};
use worldgen_core::scalar::Scalar;
use worldgen_core::state::RiverClass;
use worldgen_core::systems::hydro_finalize::{
    classify_river, classify_rivers, flood_lake_basin, identify_lakes, is_strict_local_pit,
    mark_ocean_component, LakeSurvey, LAKE_MAX_CELLS,
};

fn s(v: f32) -> Scalar {
    Scalar::from_bits(v.to_bits())
}

fn scalars(rows: &[&[f32]]) -> Grid2D<Scalar> {
    let h = rows.len();
    let w = rows[0].len();
    let mut g = Grid2D::new(w, h, s(0.0));
    for (y, row) in rows.iter().enumerate() {
        assert_eq!(row.len(), w);
        for (x, v) in row.iter().enumerate() {
            g.set(x, y, s(*v));
        }
    }
    g
}

fn flags(g: &Grid2D<bool>) -> Vec<Vec<u8>> {
    (0..g.height()).map(|y| (0..g.width()).map(|x| u8::from(*g.get(x, y))).collect()).collect()
}

fn ids(g: &Grid2D<u32>) -> Vec<Vec<u32>> {
    (0..g.height()).map(|y| (0..g.width()).map(|x| *g.get(x, y)).collect()).collect()
}

fn noise(seed: u64, w: usize, h: usize) -> Grid2D<Scalar> {
    let mut g = Grid2D::new(w, h, s(0.0));
    for y in 0..h {
        for x in 0..w {
            let a = hash_2d(seed, (x / 4) as i32, (y / 4) as i32) as f32 / UNIT as f32;
            let b = hash_2d(seed ^ 1, x as i32, y as i32) as f32 / UNIT as f32;
            g.set(x, y, s(0.8 * a + 0.2 * b));
        }
    }
    g
}

#[test]
fn ocean_spreads_from_the_border_through_low_cells() {
    let e = scalars(&[
        &[0.9, 0.9, 0.1, 0.9, 0.9],
        &[0.9, 0.9, 0.2, 0.9, 0.9],
        &[0.9, 0.9, 0.9, 0.3, 0.9],
        &[0.9, 0.1, 0.9, 0.9, 0.9],
        &[0.9, 0.9, 0.9, 0.9, 0.9],
    ]);
    let mask = mark_ocean_component(&e, s(0.5));
    assert_eq!(
        flags(&mask),
        vec![
            vec![0, 0, 1, 0, 0],
            vec![0, 0, 1, 0, 0],
            vec![0, 0, 0, 1, 0],
            vec![0, 0, 0, 0, 0],
            vec![0, 0, 0, 0, 0],
        ]
    );
}

#[test]
fn inland_depression_is_not_ocean() {
    let e = scalars(&[
        &[0.9, 0.9, 0.9, 0.9],
        &[0.9, 0.0, 0.0, 0.9],
        &[0.9, 0.0, 0.0, 0.9],
        &[0.9, 0.9, 0.9, 0.9],
    ]);
    let mask = mark_ocean_component(&e, s(0.5));
    assert!(mask.as_slice().iter().all(|v| !*v));
}

#[test]
fn sea_level_itself_is_under_water() {
    let e = scalars(&[&[0.5, 0.5], &[0.5, 0.50001]]);
    let mask = mark_ocean_component(&e, s(0.5));
    assert_eq!(flags(&mask), vec![vec![1, 1], vec![1, 0]]);
}

#[test]
fn ocean_of_degenerate_maps() {
    let empty: Grid2D<Scalar> = Grid2D::new(0, 0, s(0.0));
    assert_eq!(mark_ocean_component(&empty, s(0.5)).len(), 0);
    let row = scalars(&[&[0.1, 0.9, 0.1]]);
    assert_eq!(flags(&mark_ocean_component(&row, s(0.5))), vec![vec![1, 0, 1]]);
    let single = scalars(&[&[0.1]]);
    assert_eq!(flags(&mark_ocean_component(&single, s(0.5))), vec![vec![1]]);
}

fn reaches_border(e: &Grid2D<Scalar>, sea: Scalar, x: usize, y: usize) -> bool {
    let (w, h) = (e.width(), e.height());
    let mut seen = vec![false; w * h];
    let mut stack = vec![(x, y)];
    while let Some((cx, cy)) = stack.pop() {
        if seen[cy * w + cx] || e.get(cx, cy).gt(sea) {
            continue;
        }
        seen[cy * w + cx] = true;
        if cx == 0 || cy == 0 || cx + 1 == w || cy + 1 == h {
            return true;
        }
        for dy in -1i64..=1 {
            for dx in -1i64..=1 {
                let nx = cx as i64 + dx;
                let ny = cy as i64 + dy;
                if nx >= 0 && ny >= 0 && (nx as usize) < w && (ny as usize) < h {
                    stack.push((nx as usize, ny as usize));
                }
            }
        }
    }
    false
}

#[test]
fn ocean_cells_are_exactly_those_joined_to_the_border() {
    let e = noise(7, 24, 20);
    let sea = s(0.45);
    let mask = mark_ocean_component(&e, sea);
    let mut count = 0;
    for y in 0..20 {
        for x in 0..24 {
            assert_eq!(*mask.get(x, y), reaches_border(&e, sea, x, y), "cell {x},{y}");
            if *mask.get(x, y) {
                assert!(e.get(x, y).le(sea));
                count += 1;
            }
        }
    }
    assert!(count > 0);
}

#[test]
fn ocean_grows_with_the_sea_level() {
    let e = noise(123_456_789, 32, 32);
    let low = mark_ocean_component(&e, s(0.2));
    let mid = mark_ocean_component(&e, s(0.5));
    let high = mark_ocean_component(&e, s(0.8));
    let count = |m: &Grid2D<bool>| m.as_slice().iter().filter(|v| **v).count();
    assert!(count(&low) <= count(&mid));
    assert!(count(&mid) <= count(&high));
    for i in 0..e.len() {
        assert!(!low.as_slice()[i] || mid.as_slice()[i]);
        assert!(!mid.as_slice()[i] || high.as_slice()[i]);
    }
}

#[test]
fn high_sea_level_reaches_the_interior() {
    let e = noise(99, 32, 32);
    let mask = mark_ocean_component(&e, s(0.95));
    let inner = (1..31).flat_map(|y| (1..31).map(move |x| (x, y)));
    assert!(inner.filter(|(x, y)| *mask.get(*x, *y)).count() > 0);
}

fn thresholds(e: f32, p: f32, m: f32) -> HydroFinalizeParams {
    HydroFinalizeParams {
        ephemeral_threshold: s(e),
        perennial_threshold: s(p),
        major_threshold: s(m),
    }
}

#[test]
fn river_thresholds_are_inclusive() {
    let t = thresholds(80.0, 260.0, 900.0);
    assert_eq!(classify_river(s(79.9), &t), RiverClass::NoRiver);
    assert_eq!(classify_river(s(80.0), &t), RiverClass::Ephemeral);
    assert_eq!(classify_river(s(259.9), &t), RiverClass::Ephemeral);
    assert_eq!(classify_river(s(260.0), &t), RiverClass::Perennial);
    assert_eq!(classify_river(s(899.0), &t), RiverClass::Perennial);
    assert_eq!(classify_river(s(900.0), &t), RiverClass::Major);
    assert_eq!(classify_river(s(1e9), &t), RiverClass::Major);
    assert_eq!(classify_river(s(f32::NAN), &t), RiverClass::NoRiver);
}

#[test]
fn rivers_never_run_on_the_ocean() {
    let e = noise(5, 16, 16);
    let ocean = mark_ocean_component(&e, s(0.5));
    let mut q = Grid2D::new(16, 16, s(1.0));
    for y in 0..16 {
        for x in 0..16 {
            q.set(x, y, s((hash_2d(3, x as i32, y as i32) % 2000) as f32));
        }
    }
    let t = thresholds(80.0, 260.0, 900.0);
    let rivers = classify_rivers(&q, &ocean, &t);
    let mut seen = [0usize; 4];
    for y in 0..16 {
        for x in 0..16 {
            let class = *rivers.get(x, y);
            if *ocean.get(x, y) {
                assert_eq!(class, RiverClass::NoRiver);
            } else {
                assert_eq!(class, classify_river(*q.get(x, y), &t));
            }
            seen[class.as_u8() as usize] += 1;
        }
    }
    assert!(seen.iter().all(|n| *n > 0));
}

#[test]
fn zero_thresholds_make_every_land_cell_a_major_river() {
    let e = noise(11, 16, 16);
    let ocean = mark_ocean_component(&e, s(0.5));
    let mut q = Grid2D::new(16, 16, s(1.0));
    q.set(3, 3, s(0.0));
    q.set(4, 4, s(12.5));
    let rivers = classify_rivers(&q, &ocean, &thresholds(0.0, 0.0, 0.0));
    let mut land = 0;
    for y in 0..16 {
        for x in 0..16 {
            if *ocean.get(x, y) {
                assert_eq!(*rivers.get(x, y), RiverClass::NoRiver);
            } else {
                assert_eq!(*rivers.get(x, y), RiverClass::Major);
                land += 1;
            }
        }
    }
    assert!(land > 0);
}

fn bowl() -> Grid2D<Scalar> {
    scalars(&[
        &[0.9, 0.9, 0.9, 0.9, 0.9, 0.9, 0.9],
        &[0.9, 0.9, 0.9, 0.9, 0.9, 0.9, 0.9],
        &[0.9, 0.9, 0.605, 0.604, 0.603, 0.9, 0.9],
        &[0.9, 0.9, 0.606, 0.6, 0.602, 0.9, 0.9],
        &[0.9, 0.9, 0.607, 0.608, 0.601, 0.9, 0.9],
        &[0.9, 0.9, 0.9, 0.9, 0.9, 0.9, 0.9],
        &[0.9, 0.9, 0.9, 0.9, 0.9, 0.9, 0.9],
    ])
}

#[test]
fn flood_fills_the_basin_up_to_the_level() {
    let e = bowl();
    let ocean = Grid2D::new(7, 7, false);
    let mut lake = Grid2D::new(7, 7, 0u32);
    assert!(flood_lake_basin(&e, &ocean, &mut lake, 3, 3, 4, s(0.6065), 6000));
    let mut want = vec![vec![0u32; 7]; 7];
    for (x, y) in [(2, 2), (3, 2), (4, 2), (2, 3), (3, 3), (4, 3), (4, 4)] {
        want[y][x] = 4;
    }
    assert_eq!(ids(&lake), want);
}

#[test]
fn flood_covers_cells_at_the_level() {
    let e = bowl();
    let ocean = Grid2D::new(7, 7, false);
    let mut lake = Grid2D::new(7, 7, 0u32);
    assert!(flood_lake_basin(&e, &ocean, &mut lake, 3, 3, 1, s(0.608), 9));
    assert_eq!(lake.as_slice().iter().filter(|v| **v == 1).count(), 9);
}

#[test]
fn flood_is_undone_when_too_large() {
    let e = bowl();
    let ocean = Grid2D::new(7, 7, false);
    let mut lake = Grid2D::new(7, 7, 0u32);
    assert!(!flood_lake_basin(&e, &ocean, &mut lake, 3, 3, 1, s(0.608), 8));
    assert!(lake.as_slice().iter().all(|v| *v == 0));
    assert!(!flood_lake_basin(&e, &ocean, &mut lake, 3, 3, 1, s(0.608), 0));
    assert!(lake.as_slice().iter().all(|v| *v == 0));
}

#[test]
fn flood_is_undone_at_the_border() {
    let e = scalars(&[
        &[0.9, 0.9, 0.9, 0.9, 0.9],
        &[0.9, 0.9, 0.9, 0.9, 0.9],
        &[0.61, 0.61, 0.6, 0.9, 0.9],
        &[0.9, 0.9, 0.9, 0.9, 0.9],
        &[0.9, 0.9, 0.9, 0.9, 0.9],
    ]);
    let ocean = Grid2D::new(5, 5, false);
    let mut lake = Grid2D::new(5, 5, 0u32);
    assert!(!flood_lake_basin(&e, &ocean, &mut lake, 2, 2, 1, s(0.62), 6000));
    assert!(lake.as_slice().iter().all(|v| *v == 0));
    assert!(flood_lake_basin(&e, &ocean, &mut lake, 2, 2, 1, s(0.605), 6000));
    assert_eq!(lake.as_slice().iter().filter(|v| **v == 1).count(), 1);
}

#[test]
fn flood_is_undone_at_another_lake() {
    let e = bowl();
    let ocean = Grid2D::new(7, 7, false);
    let mut lake = Grid2D::new(7, 7, 0u32);
    lake.set(4, 4, 9);
    let before = ids(&lake);
    assert!(!flood_lake_basin(&e, &ocean, &mut lake, 3, 3, 2, s(0.6065), 6000));
    assert_eq!(ids(&lake), before);
    let mut far = Grid2D::new(7, 7, 0u32);
    far.set(2, 4, 9);
    assert!(flood_lake_basin(&e, &ocean, &mut far, 3, 3, 2, s(0.6065), 6000));
    assert_eq!(*far.get(2, 4), 9);
    assert_eq!(far.as_slice().iter().filter(|v| **v == 2).count(), 7);
}

#[test]
fn flood_stops_at_the_ocean() {
    let e = bowl();
    let mut ocean = Grid2D::new(7, 7, false);
    ocean.set(4, 3, true);
    ocean.set(4, 2, true);
    let mut lake = Grid2D::new(7, 7, 0u32);
    assert!(flood_lake_basin(&e, &ocean, &mut lake, 3, 3, 3, s(0.6065), 6000));
    for y in 0..7 {
        for x in 0..7 {
            if *lake.get(x, y) != 0 {
                assert!(!*ocean.get(x, y));
            }
        }
    }
    assert_eq!(*lake.get(4, 3), 0);
    assert_eq!(*lake.get(3, 3), 3);
}

#[test]
fn strict_pits() {
    let e = bowl();
    assert!(is_strict_local_pit(&e, 3, 3, s(0.6 + 1e-4)));
    assert!(!is_strict_local_pit(&e, 3, 3, s(0.601)));
    assert!(!is_strict_local_pit(&e, 2, 2, s(0.605 + 1e-4)));
    let flat = Grid2D::new(3, 3, s(0.7));
    assert!(!is_strict_local_pit(&flat, 1, 1, s(0.7 + 1e-4)));
}

fn rims_and_levels(e: &Grid2D<Scalar>) -> (Grid2D<Scalar>, Grid2D<Scalar>) {
    let (w, h) = (e.width(), e.height());
    let v = |x: usize, y: usize| f32::from_bits(e.get(x, y).to_bits());
    let mut rim = Grid2D::new(w, h, s(0.0));
    let mut level = Grid2D::new(w, h, s(0.0));
    for y in 0..h {
        for x in 0..w {
            let elev = v(x, y);
            let (mut lo, mut hi) = (elev, elev);
            for dy in -1i64..=1 {
                for dx in -1i64..=1 {
                    let (nx, ny) = (x as i64 + dx, y as i64 + dy);
                    if nx >= 0 && ny >= 0 && (nx as usize) < w && (ny as usize) < h {
                        lo = lo.min(v(nx as usize, ny as usize));
                        hi = hi.max(v(nx as usize, ny as usize));
                    }
                }
            }
            rim.set(x, y, s(elev + 1e-4));
            level.set(x, y, s(elev + (0.001 + (hi - lo) * 0.3).min(0.008)));
        }
    }
    (rim, level)
}

#[test]
fn lakes_form_at_fed_pits_only() {
    let e = bowl();
    let ocean = Grid2D::new(7, 7, false);
    let (rim, level) = rims_and_levels(&e);
    let mut acc = Grid2D::new(7, 7, s(1.0));
    let dry = LakeSurvey {
        elevation: &e,
        ocean_mask: &ocean,
        accumulation: &acc,
        pit_rim: &rim,
        flood_level: &level,
        sea_level: s(0.5),
    };
    assert!(identify_lakes(&dry).as_slice().iter().all(|v| *v == 0));
    acc.set(3, 3, s(8.0));
    let fed = LakeSurvey {
        elevation: &e,
        ocean_mask: &ocean,
        accumulation: &acc,
        pit_rim: &rim,
        flood_level: &level,
        sea_level: s(0.5),
    };
    let lakes = identify_lakes(&fed);
    let mut want = vec![vec![0u32; 7]; 7];
    // relief 0.008 at the pit gives a flood level of 0.6 + 0.0034
    for (x, y) in [(4, 2), (3, 3), (4, 3), (4, 4)] {
        want[y][x] = 1;
    }
    assert_eq!(ids(&lakes), want);
    let drowned = LakeSurvey {
        elevation: &e,
        ocean_mask: &ocean,
        accumulation: &acc,
        pit_rim: &rim,
        flood_level: &level,
        sea_level: s(0.6),
    };
    assert!(identify_lakes(&drowned).as_slice().iter().all(|v| *v == 0));
}

#[test]
fn lakes_are_numbered_in_scan_order() {
    let mut rows = vec![vec![0.9f32; 12]; 7];
    rows[2][2] = 0.6;
    rows[4][8] = 0.7;
    rows[3][5] = 0.65;
    let refs: Vec<&[f32]> = rows.iter().map(|r| r.as_slice()).collect();
    let e = scalars(&refs);
    let ocean = Grid2D::new(12, 7, false);
    let (rim, level) = rims_and_levels(&e);
    let acc = Grid2D::new(12, 7, s(20.0));
    let survey = LakeSurvey {
        elevation: &e,
        ocean_mask: &ocean,
        accumulation: &acc,
        pit_rim: &rim,
        flood_level: &level,
        sea_level: s(0.5),
    };
    let lakes = identify_lakes(&survey);
    assert_eq!(*lakes.get(2, 2), 1);
    assert_eq!(*lakes.get(5, 3), 2);
    assert_eq!(*lakes.get(8, 4), 3);
    assert_eq!(lakes.as_slice().iter().filter(|v| **v != 0).count(), 3);
    assert_eq!(LAKE_MAX_CELLS, 6000);
}

#[test]
fn lake_can_reach_an_inland_cell_below_sea_level() {
    let mut rows = vec![vec![0.9f32; 7]; 7];
    rows[3][3] = 0.6;
    rows[3][4] = 0.6005;
    rows[3][5] = 0.3;
    let refs: Vec<&[f32]> = rows.iter().map(|r| r.as_slice()).collect();
    let e = scalars(&refs);
    let sea = s(0.5);
    let ocean = mark_ocean_component(&e, sea);
    assert!(ocean.as_slice().iter().all(|v| !*v));
    let (rim, level) = rims_and_levels(&e);
    let acc = Grid2D::new(7, 7, s(9.0));
    let survey = LakeSurvey {
        elevation: &e,
        ocean_mask: &ocean,
        accumulation: &acc,
        pit_rim: &rim,
        flood_level: &level,
        sea_level: sea,
    };
    let lakes = identify_lakes(&survey);
    assert_eq!(*lakes.get(3, 3), 1);
    assert_eq!(*lakes.get(4, 3), 1);
    assert_eq!(*lakes.get(5, 3), 1);
    assert!(e.get(5, 3).le(sea));
    assert_eq!(lakes.as_slice().iter().filter(|v| **v != 0).count(), 3);
}

#[test]
fn lakes_of_a_rough_map_are_land_regions() {
    let e = noise(2024, 48, 40);
    let sea = s(0.35);
    let ocean = mark_ocean_component(&e, sea);
    let (rim, level) = rims_and_levels(&e);
    let acc = Grid2D::new(48, 40, s(8.0));
    let survey = LakeSurvey {
        elevation: &e,
        ocean_mask: &ocean,
        accumulation: &acc,
        pit_rim: &rim,
        flood_level: &level,
        sea_level: sea,
    };
    let lakes = identify_lakes(&survey);
    let top = *lakes.as_slice().iter().max().unwrap();
    assert!(top >= 1);
    for id in 1..=top {
        let cells: Vec<(usize, usize)> = lakes
            .iter_coords()
            .into_iter()
            .filter(|(x, y)| *lakes.get(*x, *y) == id)
            .collect();
        assert!(!cells.is_empty());
        assert!(cells.len() <= LAKE_MAX_CELLS);
        let mut seen = vec![cells[0]];
        let mut i = 0;
        while i < seen.len() {
            let (cx, cy) = seen[i];
            for (x, y) in &cells {
                let near = cx.abs_diff(*x) <= 1 && cy.abs_diff(*y) <= 1;
                if near && !seen.contains(&(*x, *y)) {
                    seen.push((*x, *y));
                }
            }
            i += 1;
        }
        assert_eq!(seen.len(), cells.len());
        for (x, y) in &cells {
            assert!(!*ocean.get(*x, *y));
            assert!(*x > 0 && *y > 0 && *x < 47 && *y < 39);
        }
        assert!(cells.iter().any(|(x, y)| e.get(*x, *y).gt(sea)));
    }
}
