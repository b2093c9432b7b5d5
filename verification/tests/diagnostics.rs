use std::collections::BTreeMap;

use worldgen_core::digest::{
    combine, digest_hex, hash_biome, hash_bool, hash_province, hash_river_class, hash_rock,
    hash_scalars, hash_strata, hash_u32, hash_u8, to_hex, LayerHash,
};
use worldgen_core::grid::Grid2D;
use worldgen_core::params::{GenerationParams, MapSizePreset};
use worldgen_core::scalar::Scalar;
use worldgen_core::state::{
    Biome, GeologicProvince, Millis, Mineral, RiverClass, RockType, Step, StrataLayer, WorldState,
};

fn s(v: f32) -> Scalar {
    Scalar::from_bits(v.to_bits())
}

fn streamed(chunks: &[Vec<u8>]) -> String {
    let mut h = blake3::Hasher::new();
    for c in chunks {
        h.update(c);
    }
    h.finalize().to_hex().to_string()
}

#[test]
fn digest_of_the_empty_input() {
    assert_eq!(
        digest_hex(&[]),
        "af1349b9f5f9a1a6a0404dea36dcc9499bcb25c9adc112b7cc9a93cae41f3262"
    );
}

#[test]
fn digest_is_the_blake3_hash_in_hex() {
    for input in [&b"abc"[..], &b"worldgen"[..], &[0u8; 5000][..]] {
        let hex = digest_hex(input);
        assert_eq!(hex, blake3::hash(input).to_hex().to_string());
        assert_eq!(hex.len(), 64);
        assert_ne!(hex.as_bytes(), input);
    }
    assert_ne!(digest_hex(b"a"), digest_hex(b"b"));
}

#[test]
fn hex_is_lowercase_high_digit_first() {
    assert_eq!(to_hex(&[]), "");
    assert_eq!(to_hex(&[0x00, 0x0f, 0xf0, 0xab, 0x19, 0xff]), "000ff0ab19ff");
}

#[test]
fn layers_are_hashed_by_their_bytes() {
    let floats = [0.0f32, -0.0, 1.5, 0.25, f32::MAX];
    let cells: Vec<Scalar> = floats.iter().map(|v| s(*v)).collect();
    let chunks: Vec<Vec<u8>> = floats.iter().map(|v| v.to_bits().to_le_bytes().to_vec()).collect();
    assert_eq!(hash_scalars(&cells), streamed(&chunks));
    let words = [0u32, 1, 0x0102_0304, u32::MAX];
    let chunks: Vec<Vec<u8>> = words.iter().map(|v| v.to_le_bytes().to_vec()).collect();
    assert_eq!(hash_u32(&words), streamed(&chunks));
    assert_eq!(hash_u8(&[0, 7, 255]), streamed(&[vec![0, 7, 255]]));
    assert_eq!(hash_bool(&[true, false, true]), streamed(&[vec![1], vec![0], vec![1]]));
    assert_eq!(
        hash_river_class(&[RiverClass::Major, RiverClass::NoRiver, RiverClass::Ephemeral]),
        streamed(&[vec![3, 0, 1]])
    );
    assert_eq!(hash_biome(&[Biome::Wetland, Biome::Ocean, Biome::Alpine]), streamed(&[vec![13, 0, 12]]));
    assert_eq!(
        hash_province(&[GeologicProvince::VolcanicArc, GeologicProvince::Craton]),
        streamed(&[vec![4, 1]])
    );
    assert_eq!(hash_rock(&[RockType::Rhyolite, RockType::Basalt]), streamed(&[vec![8, 0]]));
    assert_eq!(hash_bool(&[]), digest_hex(&[]));
}

#[test]
fn checksum_hashes_names_and_hashes_in_turn() {
    let entries = vec![
        LayerHash { name: "a".to_string(), hash: "11".to_string() },
        LayerHash { name: "bc".to_string(), hash: "22".to_string() },
    ];
    assert_eq!(combine(&entries), digest_hex(b"a11bc22"));
    assert_eq!(combine(&Vec::new()), digest_hex(b""));
    let swapped = vec![entries[1].clone(), entries[0].clone()];
    assert_ne!(combine(&swapped), combine(&entries));
}

fn small_world() -> WorldState {
    let mut p = GenerationParams::default();
    p.size = MapSizePreset::S256;
    let mut w = WorldState::new(p);
    for y in 0..256 {
        for x in 0..256 {
            let v = ((x * 31 + y * 17) % 97) as f32 / 97.0;
            w.elevation.set(x, y, s(v));
            w.flow_dir.set(x, y, ((x + y) % 8) as u8);
            w.lake_id.set(x, y, ((x * y) % 5) as u32);
            w.ocean_mask.set(x, y, v < 0.3);
            w.mineral_masks[Mineral::Gold.as_u8() as usize].set(x, y, (x ^ y) % 7 == 0);
        }
    }
    w
}

fn as_map(w: &WorldState) -> BTreeMap<String, String> {
    w.diagnostics.layer_hashes.iter().map(|e| (e.name.clone(), e.hash.clone())).collect()
}

#[test]
fn diagnostics_list_the_layers_in_sorted_order() {
    let mut w = small_world();
    w.update_diagnostics();
    let names: Vec<&str> = w.diagnostics.layer_hashes.iter().map(|e| e.name.as_str()).collect();
    assert_eq!(
        names,
        vec![
            "accumulation",
            "biome",
            "discharge",
            "elevation",
            "fertility",
            "flow_dir",
            "lake_id",
            "mineral_coal",
            "mineral_copper",
            "mineral_gem",
            "mineral_gold",
            "mineral_iron",
            "mineral_tin",
            "ocean_mask",
            "pressure",
            "province",
            "rainfall",
            "river_class",
            "rock_type",
            "strata",
            "temperature",
            "wind_u",
            "wind_v",
        ]
    );
    let mut sorted = names.clone();
    sorted.sort();
    assert_eq!(names, sorted);
    let map = as_map(&w);
    assert_eq!(map.len(), 23);
    assert_eq!(map.keys().map(|k| k.as_str()).collect::<Vec<_>>(), names);
}

#[test]
fn diagnostics_hash_each_layer_and_combine_them() {
    let mut w = small_world();
    w.update_diagnostics();
    let map = as_map(&w);
    assert_eq!(map["elevation"], hash_scalars(w.elevation.as_slice()));
    assert_eq!(map["temperature"], hash_scalars(w.temperature.as_slice()));
    assert_eq!(map["pressure"], hash_scalars(w.pressure.as_slice()));
    assert_eq!(map["wind_u"], hash_scalars(w.wind_u.as_slice()));
    assert_eq!(map["wind_v"], hash_scalars(w.wind_v.as_slice()));
    assert_eq!(map["strata"], hash_strata(w.strata.as_slice()));
    assert_eq!(map["flow_dir"], hash_u8(w.flow_dir.as_slice()));
    assert_eq!(map["lake_id"], hash_u32(w.lake_id.as_slice()));
    assert_eq!(map["ocean_mask"], hash_bool(w.ocean_mask.as_slice()));
    assert_eq!(map["biome"], hash_biome(w.biome.as_slice()));
    assert_eq!(map["province"], hash_province(w.geologic_province.as_slice()));
    assert_eq!(map["rock_type"], hash_rock(w.rock_type.as_slice()));
    assert_eq!(map["river_class"], hash_river_class(w.river_class.as_slice()));
    assert_eq!(map["mineral_gold"], hash_bool(w.mineral_masks[2].as_slice()));
    assert_eq!(map["mineral_iron"], hash_bool(w.mineral_masks[0].as_slice()));
    assert_ne!(map["mineral_gold"], map["mineral_iron"]);
    let mut rolling = blake3::Hasher::new();
    for (name, hash) in &map {
        rolling.update(name.as_bytes());
        rolling.update(hash.as_bytes());
    }
    assert_eq!(w.diagnostics.checksum, rolling.finalize().to_hex().to_string());
}

#[test]
fn updating_twice_changes_nothing() {
    let mut w = small_world();
    w.update_diagnostics();
    let first = (as_map(&w), w.diagnostics.checksum.clone());
    w.update_diagnostics();
    assert_eq!((as_map(&w), w.diagnostics.checksum.clone()), first);
}

#[test]
fn equal_layers_give_equal_checksums() {
    let mut a = small_world();
    let mut b = small_world();
    b.step_timings_ms[0] = Some(Millis { bits: 3.5f64.to_bits() });
    b.current_step = Some(Step::Biomes);
    b.params.seed = 99;
    b.diagnostics.checksum = "stale".to_string();
    a.update_diagnostics();
    b.update_diagnostics();
    assert_eq!(a.diagnostics.checksum, b.diagnostics.checksum);
    assert_eq!(as_map(&a), as_map(&b));
    assert_eq!(b.current_step, Some(Step::Biomes));
    assert_eq!(b.params.seed, 99);
}

#[test]
fn every_layer_reaches_the_checksum() {
    let mut base = small_world();
    base.update_diagnostics();
    let base_map = as_map(&base);
    let changes: Vec<(&str, fn(&mut WorldState))> = vec![
        ("accumulation", |w| w.accumulation.set(1, 2, s(4.0))),
        ("biome", |w| w.biome.set(1, 2, Biome::Alpine)),
        ("discharge", |w| w.discharge.set(1, 2, s(4.0))),
        ("elevation", |w| w.elevation.set(1, 2, s(0.987))),
        ("fertility", |w| w.fertility.set(1, 2, s(0.5))),
        ("flow_dir", |w| w.flow_dir.set(1, 2, 255)),
        ("lake_id", |w| w.lake_id.set(1, 2, 9)),
        ("mineral_coal", |w| w.mineral_masks[4].set(1, 2, true)),
        ("mineral_copper", |w| w.mineral_masks[1].set(1, 2, true)),
        ("mineral_gem", |w| w.mineral_masks[5].set(1, 2, true)),
        ("mineral_gold", |w| w.mineral_masks[2].set(1, 2, true)),
        ("mineral_iron", |w| w.mineral_masks[0].set(1, 2, true)),
        ("mineral_tin", |w| w.mineral_masks[3].set(1, 2, true)),
        ("ocean_mask", |w| w.ocean_mask.set(1, 2, true)),
        ("pressure", |w| w.pressure.set(1, 2, s(0.7))),
        ("province", |w| w.geologic_province.set(1, 2, GeologicProvince::Basin)),
        ("rainfall", |w| w.rainfall.set(1, 2, s(0.7))),
        ("river_class", |w| w.river_class.set(1, 2, RiverClass::Major)),
        ("rock_type", |w| w.rock_type.set(1, 2, RockType::Shale)),
        ("strata", |w| w.strata.set(1, 2, vec![StrataLayer { rock: RockType::Gneiss, grain: 77 }])),
        ("temperature", |w| w.temperature.set(1, 2, s(21.0))),
        ("wind_u", |w| w.wind_u.set(1, 2, s(-0.3))),
        ("wind_v", |w| w.wind_v.set(1, 2, s(0.3))),
    ];
    assert_eq!(changes.len(), base_map.len());
    for (layer, change) in changes {
        let mut w = small_world();
        change(&mut w);
        w.update_diagnostics();
        assert_ne!(w.diagnostics.checksum, base.diagnostics.checksum, "{layer}");
        for (name, hash) in as_map(&w) {
            assert_eq!(hash != base_map[&name], name == layer, "{layer} / {name}");
        }
    }
}

#[test]
fn strata_are_hashed_stratum_by_stratum() {
    let a = StrataLayer { rock: RockType::Rhyolite, grain: 0x0102_0304 };
    let b = StrataLayer { rock: RockType::Basalt, grain: 5 };
    let cells = vec![vec![a, b], vec![], vec![b]];
    let bytes = vec![8, 4, 3, 2, 1, 0, 5, 0, 0, 0, 0, 5, 0, 0, 0];
    assert_eq!(hash_strata(&cells), streamed(&[bytes]));
    assert_eq!(hash_strata(&[]), digest_hex(&[]));
    assert_eq!(hash_strata(&[vec![], vec![]]), digest_hex(&[]));
    assert_ne!(hash_strata(&[vec![a, b]]), hash_strata(&[vec![b, a]]));
}

fn is_digest(text: &str) -> bool {
    text.len() == 64 && text.chars().all(|c| c.is_ascii_digit() || ('a'..='f').contains(&c))
}

#[test]
fn hashes_are_64_lowercase_hex_digits() {
    let mut w = small_world();
    w.update_diagnostics();
    assert!(is_digest(&w.diagnostics.checksum));
    assert_eq!(w.diagnostics.layer_hashes.len(), 23);
    for entry in &w.diagnostics.layer_hashes {
        assert!(is_digest(&entry.hash), "{}", entry.name);
    }
    assert!(is_digest(&combine(&Vec::new())));
    assert!(is_digest(&hash_u8(&[])));
    assert!(is_digest(&hash_scalars(&[s(1.0)])));
    assert!(is_digest(&hash_u32(&[7])));
    assert!(is_digest(&hash_bool(&[true])));
    assert!(is_digest(&hash_strata(&[vec![]])));
}

#[test]
fn one_changed_cell_changes_the_checksum() {
    let mut a = small_world();
    let mut b = small_world();
    b.elevation.set(200, 100, s(0.123_456));
    a.update_diagnostics();
    b.update_diagnostics();
    assert_ne!(a.diagnostics.checksum, b.diagnostics.checksum);
    let (ma, mb) = (as_map(&a), as_map(&b));
    for (name, hash) in &ma {
        assert_eq!(*hash != mb[name], name == "elevation");
    }
    let mut c = small_world();
    c.elevation.set(0, 0, s(-0.0));
    let mut d = small_world();
    d.elevation.set(0, 0, s(0.0));
    c.update_diagnostics();
    d.update_diagnostics();
    assert_ne!(c.diagnostics.checksum, d.diagnostics.checksum);
}

#[test]
fn grid_of_scalars_hashes_like_its_slice() {
    let mut g = Grid2D::new(2, 2, s(0.0));
    g.set(1, 0, s(2.0));
    let chunks: Vec<Vec<u8>> =
        [0.0f32, 2.0, 0.0, 0.0].iter().map(|v| v.to_bits().to_le_bytes().to_vec()).collect();
    assert_eq!(hash_scalars(g.as_slice()), streamed(&chunks));
}
