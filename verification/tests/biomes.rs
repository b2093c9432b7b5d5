use worldgen_core::grid::Grid2D;
use worldgen_core::scalar::Scalar;
use worldgen_core::state::Biome;
use worldgen_core::state::Biome::{Alpine as A, Lake as L, Ocean as O, Savanna as S, Tundra as T};
use worldgen_core::systems::biomes::{
    classify, classify_and_smooth, classify_cells, smooth_biomes, BiomeSurvey,
};

fn s(v: f32) -> Scalar {
    Scalar::from_bits(v.to_bits())
}

fn land(temp: f32, rain: f32) -> Biome {
    classify(s(temp), s(rain), s(0.6), s(0.3), s(0.5), s(0.5 + 0.28), false)
}

#[test]
fn water_wetland_and_alpine_come_first() {
    let sea = s(0.5);
    let line = s(0.5 + 0.28);
    assert_eq!(classify(s(20.0), s(0.5), s(0.5), s(0.9), sea, line, true), Biome::Ocean);
    assert_eq!(classify(s(20.0), s(0.5), s(0.2), s(0.1), sea, line, false), Biome::Ocean);
    assert_eq!(classify(s(20.0), s(0.5), s(0.51), s(0.9), sea, line, true), Biome::Lake);
    assert_eq!(classify(s(20.0), s(0.5), s(0.9), s(0.86), sea, line, false), Biome::Wetland);
    assert_eq!(classify(s(20.0), s(0.5), s(0.9), s(0.85), sea, line, false), Biome::Alpine);
    assert_eq!(classify(s(20.0), s(0.5), s(0.79), s(0.3), sea, line, false), Biome::Alpine);
    assert_eq!(
        classify(s(20.0), s(0.5), s(0.5 + 0.28), s(0.3), sea, line, false),
        Biome::TropicalSeasonalForest
    );
}

#[test]
fn climate_table() {
    assert_eq!(land(-8.5, 0.17), Biome::PolarDesert);
    assert_eq!(land(-8.5, 0.18), Biome::Tundra);
    assert_eq!(land(-8.0, 0.36), Biome::BorealForest);
    assert_eq!(land(3.9, 0.35), Biome::Tundra);
    assert_eq!(land(3.9, 0.9), Biome::BorealForest);
    assert_eq!(land(4.0, 0.19), Biome::TemperateGrassland);
    assert_eq!(land(4.0, 0.2), Biome::Mediterranean);
    assert_eq!(land(14.9, 0.44), Biome::Mediterranean);
    assert_eq!(land(14.9, 0.45), Biome::TemperateForest);
    assert_eq!(land(15.0, 0.15), Biome::HotDesert);
    assert_eq!(land(15.0, 0.16), Biome::Savanna);
    assert_eq!(land(30.0, 0.37), Biome::Savanna);
    assert_eq!(land(30.0, 0.38), Biome::TropicalSeasonalForest);
    assert_eq!(land(30.0, 0.61), Biome::TropicalSeasonalForest);
    assert_eq!(land(30.0, 0.62), Biome::TropicalRainforest);
    assert_eq!(land(30.0, 1.0), Biome::TropicalRainforest);
}

fn biomes(rows: &[&[Biome]]) -> Grid2D<Biome> {
    let mut g = Grid2D::new(rows[0].len(), rows.len(), Biome::Ocean);
    for (y, row) in rows.iter().enumerate() {
        for (x, b) in row.iter().enumerate() {
            g.set(x, y, *b);
        }
    }
    g
}

#[test]
fn majority_takes_interior_cells() {
    let g = biomes(&[&[T, T, T], &[T, S, T], &[S, S, T]]);
    let out = smooth_biomes(&g);
    assert_eq!(*out.get(1, 1), T);
    for (x, y) in [(0, 0), (1, 0), (2, 0), (0, 1), (2, 1), (0, 2), (1, 2), (2, 2)] {
        assert_eq!(*out.get(x, y), *g.get(x, y));
    }
}

#[test]
fn smallest_tag_wins_a_tie() {
    let g = biomes(&[&[S, S, S], &[T, A, T], &[T, S, T]]);
    assert_eq!(*smooth_biomes(&g).get(1, 1), T);
    let h = biomes(&[&[A, A, A], &[A, S, S], &[S, S, T]]);
    assert_eq!(*smooth_biomes(&h).get(1, 1), S);
}

#[test]
fn water_keeps_its_biome_but_votes() {
    let g = biomes(&[&[S, S, S], &[S, O, S], &[S, S, S]]);
    assert_eq!(*smooth_biomes(&g).get(1, 1), O);
    let h = biomes(&[&[S, S, S], &[S, L, S], &[S, S, S]]);
    assert_eq!(*smooth_biomes(&h).get(1, 1), L);
    let k = biomes(&[&[O, O, O], &[O, S, O], &[S, S, S]]);
    assert_eq!(*smooth_biomes(&k).get(1, 1), O);
}

#[test]
fn smoothing_reads_the_unsmoothed_map() {
    let g = biomes(&[
        &[T, T, T, S, S],
        &[T, S, T, S, S],
        &[T, T, S, S, S],
        &[T, T, T, S, S],
    ]);
    let out = smooth_biomes(&g);
    assert_eq!(*out.get(1, 1), T);
    assert_eq!(*out.get(2, 1), S);
    assert_eq!(*out.get(2, 2), S);
    assert_eq!(*out.get(1, 2), T);
    assert_eq!(*out.get(3, 1), S);
}

#[test]
fn maps_without_interior_are_unchanged() {
    let g = biomes(&[&[T, S, T, S], &[S, T, S, T]]);
    assert_eq!(smooth_biomes(&g).as_slice(), g.as_slice());
}

fn layer(w: usize, h: usize, f: impl Fn(usize, usize) -> f32) -> Grid2D<Scalar> {
    let mut g = Grid2D::new(w, h, s(0.0));
    for y in 0..h {
        for x in 0..w {
            g.set(x, y, s(f(x, y)));
        }
    }
    g
}

#[test]
fn no_smoothing_pass_leaves_the_classification() {
    let (w, h) = (12, 9);
    let temperature = layer(w, h, |x, y| -12.0 + (x * 4 + y) as f32);
    let rainfall = layer(w, h, |x, y| ((x * 7 + y * 3) % 10) as f32 / 10.0);
    let elevation = layer(w, h, |x, y| 0.4 + ((x + y * 5) % 9) as f32 * 0.05);
    let wetness = layer(w, h, |x, y| ((x * 3 + y) % 11) as f32 / 11.0);
    let mut lake_id = Grid2D::new(w, h, 0u32);
    lake_id.set(5, 5, 3);
    let survey = BiomeSurvey {
        temperature: &temperature,
        rainfall: &rainfall,
        elevation: &elevation,
        wetness: &wetness,
        lake_id: &lake_id,
        sea_level: s(0.5),
        alpine_line: s(0.5 + 0.28),
    };
    let plain = classify_cells(&survey);
    let zero = classify_and_smooth(&survey, 0);
    assert_eq!(zero.as_slice(), plain.as_slice());
    for y in 0..h {
        for x in 0..w {
            let want = classify(
                *temperature.get(x, y),
                *rainfall.get(x, y),
                *elevation.get(x, y),
                *wetness.get(x, y),
                s(0.5),
                s(0.5 + 0.28),
                *lake_id.get(x, y) > 0,
            );
            assert_eq!(*plain.get(x, y), want);
            assert_eq!(want == Biome::Ocean, elevation.get(x, y).le(s(0.5)));
        }
    }
    let once = classify_and_smooth(&survey, 1);
    assert_eq!(once.as_slice(), smooth_biomes(&plain).as_slice());
    let twice = classify_and_smooth(&survey, 2);
    assert_eq!(twice.as_slice(), smooth_biomes(&once).as_slice());
    assert_ne!(once.as_slice(), plain.as_slice());
}
