//! Stateless integer mixing: the only source of randomness in the pipeline.

use vstd::prelude::*;

verus! {

/// Increment of the SplitMix64 sequence (the 64-bit golden ratio).
pub const GOLDEN_GAMMA: u64 = 0x9E37_79B9_7F4A_7C15;

/// First multiplier of the SplitMix64 finalizer.
pub const MIX_MUL_A: u64 = 0xBF58_476D_1CE4_E5B9;

/// Second multiplier of the SplitMix64 finalizer.
pub const MIX_MUL_B: u64 = 0x94D0_49BB_1331_11EB;

/// Multiplier applied to the column before hashing a lattice point.
pub const LATTICE_MUL_X: u64 = 0x9E37_79B1;

/// Multiplier applied to the row before hashing a lattice point.
pub const LATTICE_MUL_Y: u64 = 0x85EB_CA77;

/// One more than the largest value of [`hash_2d`]: its results are numerators
/// of fractions over this denominator.
pub const UNIT: u32 = 0x100_0000;

/// Product modulo 2^64.
pub open spec fn mul64(a: u64, b: u64) -> u64 {
    ((a as nat * b as nat) % 0x1_0000_0000_0000_0000) as u64
}

/// Sum modulo 2^64.
pub open spec fn add64(a: u64, b: u64) -> u64 {
    ((a as int + b as int) % 0x1_0000_0000_0000_0000) as u64
}

/// The SplitMix64 finalizer: xor-shift by 30, multiply, xor-shift by 27,
/// multiply, xor-shift by 31, all modulo 2^64.
pub open spec fn mix64(x: u64) -> u64 {
    let a = mul64(x ^ (x >> 30), MIX_MUL_A);
    let b = mul64(a ^ (a >> 27), MIX_MUL_B);
    b ^ (b >> 31)
}

/// A signed coordinate widened to 64 bits in two's complement.
pub open spec fn widen(c: i32) -> u64 {
    c as u64
}

/// Widening keeps a non-negative coordinate and adds 2^64 to a negative one.
pub proof fn lemma_widen(c: i32)
    ensures
        c >= 0 ==> widen(c) == c,
        c < 0 ==> widen(c) == 0x1_0000_0000_0000_0000 + c,
{
    assert(c >= 0 ==> c as u64 == c) by (bit_vector);
    assert(c < 0 ==> c as u64 == 0x1_0000_0000_0000_0000 + c) by (bit_vector);
}

/// The word that [`hash_2d`] mixes for a lattice point.
pub open spec fn lattice_word(seed: u64, x: i32, y: i32) -> u64 {
    seed ^ mul64(widen(x), LATTICE_MUL_X) ^ mul64(widen(y), LATTICE_MUL_Y)
}

/// Bits 40..64 of the mixed lattice word.
pub open spec fn spec_hash_2d(seed: u64, x: i32, y: i32) -> u32 {
    (mix64(lattice_word(seed, x, y)) / 0x100_0000_0000) as u32
}

/// The seed of sub-stream `k`: `seed XOR (k · golden ratio mod 2^64)`.
pub open spec fn spec_seed_offset(seed: u64, k: u64) -> u64 {
    seed ^ mul64(k, GOLDEN_GAMMA)
}

/// A SplitMix64 generator.
#[derive(Clone, Copy, Debug)]
pub struct SplitMix64 {
    state: u64,
}

impl SplitMix64 {
    /// The internal counter.
    pub closed spec fn state(self) -> u64 {
        self.state
    }

    /// A generator whose counter starts at `seed`.
    pub fn new(seed: u64) -> (g: SplitMix64)
        ensures
            g.state() == seed,
    {
        SplitMix64 { state: seed }
    }

    /// Advances the counter by the golden gamma and returns its mix.
    pub fn next_u64(&mut self) -> (r: u64)
        ensures
            final(self).state() == add64(old(self).state(), GOLDEN_GAMMA),
            r == mix64(final(self).state()),
    {
        self.state = self.state.wrapping_add(GOLDEN_GAMMA);
        hash_u64(self.state)
    }

    /// The top 24 bits of the next output: the numerator, over [`UNIT`], of a
    /// uniform fraction in `[0, 1)`.
    pub fn next_u24(&mut self) -> (r: u32)
        ensures
            final(self).state() == add64(old(self).state(), GOLDEN_GAMMA),
            r == mix64(final(self).state()) / 0x100_0000_0000,
            r < UNIT,
    {
        let z: u64 = self.next_u64();
        assert(z >> 40 == z / 0x100_0000_0000 && (z >> 40) < 0x100_0000) by (bit_vector);
        (z >> 40) as u32
    }
}

/// The SplitMix64 finalizer.
pub fn hash_u64(x: u64) -> (r: u64)
    ensures
        r == mix64(x),
{
    let mut x = x;
    x ^= x >> 30;
    x = x.wrapping_mul(MIX_MUL_A);
    x ^= x >> 27;
    x = x.wrapping_mul(MIX_MUL_B);
    x ^ (x >> 31)
}

/// Hash of a lattice point: the numerator, over [`UNIT`], of a fraction in
/// `[0, 1)` that depends on nothing but the seed and the coordinates.
pub fn hash_2d(seed: u64, x: i32, y: i32) -> (r: u32)
    ensures
        r == spec_hash_2d(seed, x, y),
        r < UNIT,
{
    let xw: u64 = #[verifier::truncate] (x as u64);
    let yw: u64 = #[verifier::truncate] (y as u64);
    let mixed: u64 = seed ^ xw.wrapping_mul(LATTICE_MUL_X) ^ yw.wrapping_mul(LATTICE_MUL_Y);
    let h: u64 = hash_u64(mixed);
    assert((h >> 40) & 0xFF_FFFF == h / 0x100_0000_0000 && ((h >> 40) & 0xFF_FFFF) < 0x100_0000)
        by (bit_vector);
    ((h >> 40) & 0xFF_FFFF) as u32
}

/// Derives the seed of sub-stream `k`, so that each stage draws from a stream
/// of its own.
pub fn seed_offset(seed: u64, k: u64) -> (r: u64)
    ensures
        r == spec_seed_offset(seed, k),
{
    seed ^ k.wrapping_mul(GOLDEN_GAMMA)
}

} // verus!
