use worldgen_core::rng::{hash_2d, hash_u64, seed_offset, SplitMix64, UNIT};

#[test]
fn splitmix_reference_sequence() {
    let mut g = SplitMix64::new(0);
    assert_eq!(g.next_u64(), 0xE220_A839_7B1D_CDAF);
    assert_eq!(g.next_u64(), 0x6E78_9E6A_A1B9_65F4);
    assert_eq!(g.next_u64(), 0x06C4_5D18_8009_454F);
}

#[test]
fn splitmix_top_bits() {
    let mut g = SplitMix64::new(0);
    assert_eq!(g.next_u24(), 14_819_496);
    assert_eq!(g.next_u24(), 7_239_838);
    assert_eq!(g.next_u24(), 443_485);
    let mut h = SplitMix64::new(42);
    assert_eq!(h.next_u24(), 12_441_394);
}

#[test]
fn splitmix_copies_are_independent() {
    let mut a = SplitMix64::new(99);
    let mut b = a;
    assert_eq!(a.next_u64(), b.next_u64());
    assert_eq!(a.next_u64(), b.next_u64());
}

#[test]
fn hash_u64_known_values() {
    assert_eq!(hash_u64(0), 0);
    assert_eq!(hash_u64(1), 0x5692_161D_100B_05E5);
    assert_eq!(hash_u64(42), 0xA759_EA27_D472_7622);
    assert_eq!(hash_u64(u64::MAX), 0xB4D0_55FC_F2CB_BD7B);
    assert_eq!(hash_u64(123_456_789), 0xF21C_87D4_233F_FD60);
}

#[test]
fn hash_2d_known_values() {
    assert_eq!(hash_2d(0, 0, 0), 0);
    assert_eq!(hash_2d(42, 1, 2), 15_221_785);
    assert_eq!(hash_2d(42, -1, -1), 5_620_300);
    assert_eq!(hash_2d(123_456_789, 255, 255), 11_892_678);
    assert_eq!(hash_2d(7, -5, 9), 7_836_598);
}

#[test]
fn hash_2d_stays_below_unit() {
    for y in -20..20 {
        for x in -20..20 {
            assert!(hash_2d(0xDEAD_BEEF, x, y) < UNIT);
        }
    }
    assert_eq!(UNIT, 1 << 24);
}

#[test]
fn hash_2d_is_a_fraction_below_one() {
    for k in 0..200 {
        let v = hash_2d(k as u64, k, -k);
        let f = v as f32 / UNIT as f32;
        assert!((0.0..1.0).contains(&f));
    }
}

#[test]
fn seed_offset_known_values() {
    assert_eq!(seed_offset(42, 101), 0x6BE3_062F_3862_F463);
    assert_eq!(seed_offset(0, 1), 0x9E37_79B9_7F4A_7C15);
    assert_eq!(seed_offset(123_456_789, 707), 0xF335_2B4A_8DEF_60EA);
    assert_eq!(seed_offset(77, 0), 77);
}
