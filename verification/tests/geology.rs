use worldgen_core::grid::Grid2D;
use worldgen_core::rng::{hash_2d, UNIT};
use worldgen_core::scalar::Scalar;
use worldgen_core::state::GeologicProvince::{Basin, Craton, Oceanic, Orogen, VolcanicArc};
use worldgen_core::state::{GeologicProvince, Mineral, RockType};
use worldgen_core::systems::geology::{
    assign_provinces, assign_strata_and_rock, base_rock, build_stack, classify_province, draw,
    host_bonus, layer_rock, mark_deposits, mineral_draw, province_bonus, threshold,
    ProvinceSurvey, DRAW_025, DRAW_052, DRAW_055, DRAW_060, DRAW_066, FAULT_SALT, PROVINCE_SALT,
    STRATA_SALT, VOLCANIC_DRAW,
};

fn s(v: f32) -> Scalar {
    Scalar::from_bits(v.to_bits())
}

fn unit(v: u32) -> f32 {
    v as f32 / UNIT as f32
}

#[test]
fn draw_cuts_are_the_fractions_they_stand_for() {
    assert_eq!(unit(VOLCANIC_DRAW), 0.72);
    assert_eq!(unit(DRAW_060), 0.6);
    assert_eq!(unit(DRAW_066), 0.66);
    assert_eq!(unit(DRAW_052), 0.52);
    assert_eq!(unit(DRAW_025), 0.25);
    assert_eq!(unit(DRAW_055), 0.55);
    for (cut, t) in [(VOLCANIC_DRAW, 0.72f32), (DRAW_060, 0.6), (DRAW_052, 0.52)] {
        assert!(unit(cut + 1) > t);
        assert!(!(unit(cut) > t));
    }
}

#[test]
fn draws_hash_the_cell() {
    assert_eq!(draw(42 ^ PROVINCE_SALT, 3, 4), 2_386_241);
    assert_eq!(draw(42 ^ PROVINCE_SALT, 3, 4), hash_2d(42 ^ 0xABCD_EF01, 3, 4));
    assert_eq!(mineral_draw(9, Mineral::Iron, 5, 6), hash_2d(9, 5, 6));
    assert_eq!(mineral_draw(9, Mineral::Gem, 5, 6), hash_2d(9 ^ (5u64 << 32), 5, 6));
    assert_eq!(mineral_draw(9, Mineral::Gold, 0, 0), hash_2d(9 ^ (2u64 << 32), 0, 0));
}

#[test]
fn province_cascade() {
    let up = s(0.5 + 0.2);
    let low = s(0.5 + 0.07);
    let steep = s(0.031);
    assert_eq!(classify_province(true, steep, s(0.9), up, low, UNIT - 1), Oceanic);
    assert_eq!(classify_province(false, steep, s(0.71), up, low, VOLCANIC_DRAW + 1), VolcanicArc);
    assert_eq!(classify_province(false, steep, s(0.71), up, low, VOLCANIC_DRAW), Orogen);
    assert_eq!(classify_province(false, s(0.03), s(0.71), up, low, UNIT - 1), Craton);
    assert_eq!(classify_province(false, steep, s(0.5 + 0.2), up, low, UNIT - 1), Craton);
    assert_eq!(classify_province(false, steep, s(0.56), up, low, 0), Basin);
    assert_eq!(classify_province(false, s(0.0), s(0.5 + 0.07), up, low, 0), Craton);
}

#[test]
fn provinces_of_a_map() {
    let (w, h) = (6, 5);
    let mut elevation = Grid2D::new(w, h, s(0.6));
    let mut slope = Grid2D::new(w, h, s(0.0));
    let mut ocean = Grid2D::new(w, h, false);
    ocean.set(0, 0, true);
    elevation.set(1, 1, s(0.9));
    slope.set(1, 1, s(0.2));
    elevation.set(2, 2, s(0.52));
    let survey = ProvinceSurvey {
        elevation: &elevation,
        ocean_mask: &ocean,
        slope: &slope,
        upland_line: s(0.5 + 0.2),
        lowland_line: s(0.5 + 0.07),
        seed: 77,
    };
    let p = assign_provinces(&survey);
    assert_eq!(*p.get(0, 0), GeologicProvince::Oceanic);
    assert_eq!(*p.get(2, 2), GeologicProvince::Basin);
    assert_eq!(*p.get(3, 3), GeologicProvince::Craton);
    let want = if hash_2d(77 ^ 0xABCD_EF01, 1, 1) > VOLCANIC_DRAW {
        GeologicProvince::VolcanicArc
    } else {
        GeologicProvince::Orogen
    };
    assert_eq!(*p.get(1, 1), want);
}

#[test]
fn base_rocks() {
    assert_eq!(base_rock(GeologicProvince::Oceanic), RockType::Basalt);
    assert_eq!(base_rock(GeologicProvince::Craton), RockType::Granite);
    assert_eq!(base_rock(GeologicProvince::Orogen), RockType::Schist);
    assert_eq!(base_rock(GeologicProvince::Basin), RockType::Shale);
    assert_eq!(base_rock(GeologicProvince::VolcanicArc), RockType::Rhyolite);
}

#[test]
fn layer_rocks() {
    assert_eq!(layer_rock(Oceanic, 0, 0), RockType::Basalt);
    assert_eq!(layer_rock(Oceanic, 1, DRAW_060), RockType::Gabbro);
    assert_eq!(layer_rock(Oceanic, 1, DRAW_060 + 1), RockType::Basalt);
    assert_eq!(layer_rock(Craton, 0, UNIT - 1), RockType::Granite);
    assert_eq!(layer_rock(Craton, 3, 0), RockType::Granite);
    assert_eq!(layer_rock(Craton, 1, DRAW_066 + 1), RockType::Gneiss);
    assert_eq!(layer_rock(Craton, 2, DRAW_066), RockType::Sandstone);
    assert_eq!(layer_rock(Orogen, 0, DRAW_052 + 1), RockType::Schist);
    assert_eq!(layer_rock(Orogen, 0, DRAW_052), RockType::Gneiss);
    assert_eq!(layer_rock(Basin, 0, DRAW_060 + 1), RockType::Limestone);
    assert_eq!(layer_rock(Basin, 0, DRAW_060), RockType::Shale);
    assert_eq!(layer_rock(Basin, 0, DRAW_025 + 1), RockType::Shale);
    assert_eq!(layer_rock(Basin, 0, DRAW_025), RockType::Sandstone);
    assert_eq!(layer_rock(VolcanicArc, 4, DRAW_055 + 1), RockType::Rhyolite);
    assert_eq!(layer_rock(VolcanicArc, 4, DRAW_055), RockType::Basalt);
}

#[test]
fn stacks_and_faults() {
    let p = GeologicProvince::Basin;
    let plain = build_stack(5, 4, p, s(0.0), -1, 7, 8);
    assert_eq!(plain.len(), 4);
    for (l, layer) in plain.iter().enumerate() {
        let n = hash_2d(5 ^ STRATA_SALT ^ l as u64, 7, 8);
        assert_eq!(layer.grain, n);
        assert_eq!(layer.rock, layer_rock(p, l as u8, n));
        let thickness = 8.0 + unit(layer.grain) * 28.0;
        assert!((8.0..36.0).contains(&thickness));
    }
    let swapped = build_stack(5, 4, p, s(0.5), -1, 7, 8);
    assert_eq!(swapped[0], plain[1]);
    assert_eq!(swapped[1], plain[0]);
    assert_eq!(swapped[2..], plain[2..]);
    let fault = hash_2d(5 ^ FAULT_SALT, 7, 8) as i64;
    assert_eq!(build_stack(5, 4, p, s(0.5), fault, 7, 8), plain);
    assert_eq!(build_stack(5, 4, p, s(0.5), fault - 1, 7, 8), swapped);
    assert_eq!(build_stack(5, 4, p, s(-0.5), -1, 7, 8), plain);
    assert_eq!(build_stack(5, 1, p, s(0.5), -1, 7, 8).len(), 1);
    assert!(build_stack(5, 0, p, s(0.5), -1, 7, 8).is_empty());
}

#[test]
fn strata_of_a_map() {
    let mut province = Grid2D::new(3, 2, GeologicProvince::Craton);
    province.set(1, 1, GeologicProvince::Oceanic);
    let (rock, strata) = assign_strata_and_rock(&province, 11, 3, s(0.5), 1 << 23);
    for y in 0..2 {
        for x in 0..3 {
            assert_eq!(*rock.get(x, y), base_rock(*province.get(x, y)));
            let want = build_stack(11, 3, *province.get(x, y), s(0.5), 1 << 23, x, y);
            assert_eq!(*strata.get(x, y), want);
        }
    }
}

#[test]
fn mineral_tables_are_hundredths() {
    let pct = |v: u8| v as f32 / 100.0;
    assert_eq!(pct(host_bonus(Mineral::Iron, RockType::Basalt)), 0.16);
    assert_eq!(pct(host_bonus(Mineral::Iron, RockType::Gabbro)), 0.16);
    assert_eq!(pct(host_bonus(Mineral::Iron, RockType::Granite)), 0.0);
    assert_eq!(pct(host_bonus(Mineral::Copper, RockType::Rhyolite)), 0.18);
    assert_eq!(pct(host_bonus(Mineral::Copper, RockType::Basalt)), 0.18);
    assert_eq!(pct(host_bonus(Mineral::Gold, RockType::Schist)), 0.17);
    assert_eq!(pct(host_bonus(Mineral::Gold, RockType::Gneiss)), 0.17);
    assert_eq!(pct(host_bonus(Mineral::Tin, RockType::Granite)), 0.14);
    assert_eq!(pct(host_bonus(Mineral::Tin, RockType::Gneiss)), 0.0);
    assert_eq!(pct(host_bonus(Mineral::Coal, RockType::Shale)), 0.2);
    assert_eq!(pct(host_bonus(Mineral::Coal, RockType::Sandstone)), 0.2);
    assert_eq!(pct(host_bonus(Mineral::Gem, RockType::Schist)), 0.12);
    assert_eq!(pct(host_bonus(Mineral::Gem, RockType::Gneiss)), 0.12);
    assert_eq!(pct(host_bonus(Mineral::Gem, RockType::Rhyolite)), 0.12);
    assert_eq!(pct(host_bonus(Mineral::Gem, RockType::Limestone)), 0.0);
    assert_eq!(pct(province_bonus(Mineral::Iron, Oceanic)), 0.12);
    assert_eq!(pct(province_bonus(Mineral::Iron, VolcanicArc)), 0.12);
    assert_eq!(pct(province_bonus(Mineral::Iron, Craton)), 0.0);
    assert_eq!(pct(province_bonus(Mineral::Copper, VolcanicArc)), 0.13);
    assert_eq!(pct(province_bonus(Mineral::Gold, Orogen)), 0.14);
    assert_eq!(pct(province_bonus(Mineral::Tin, Craton)), 0.1);
    assert_eq!(pct(province_bonus(Mineral::Coal, Basin)), 0.16);
    assert_eq!(pct(province_bonus(Mineral::Gem, Orogen)), 0.1);
    assert_eq!(pct(province_bonus(Mineral::Gem, Basin)), 0.0);
    let cuts = [0.72f32, 0.78, 0.9, 0.82, 0.74, 0.94];
    for (m, cut) in Mineral::ALL.iter().zip(cuts) {
        assert_eq!(pct(threshold(*m)), cut);
    }
}

#[test]
fn deposits_lie_strictly_above_the_cut() {
    let mut score = Grid2D::new(3, 1, s(0.0));
    score.set(0, 0, s(0.7));
    score.set(1, 0, s(0.6325));
    score.set(2, 0, s(0.2));
    let mask = mark_deposits(&score, s(0.6325));
    assert_eq!(mask.as_slice(), &[true, false, false]);
    let none = mark_deposits(&score, s(f32::NAN));
    assert_eq!(none.as_slice(), &[false, false, false]);
}
