//! Domain-separated coordinate hashing.
//!
//! Deterministic values come from hashing a semantic path: a seed, a domain
//! identifier, and the coordinates involved. Both the domain derivation
//! (FNV-1a) and the mixer (the SplitMix64 finalizer) are written out here, so
//! no dependency release or toolchain upgrade can change a world. Every mixer
//! operation wraps.
use vstd::prelude::*;

use crate::Seed;

verus! {

/// FNV-1a 64-bit offset basis.
pub const FNV_OFFSET_BASIS: u64 = 0xcbf2_9ce4_8422_2325;

/// FNV-1a 64-bit prime.
pub const FNV_PRIME: u64 = 0x0000_0100_0000_01b3;

/// Odd increment from SplitMix64, the fractional part of the golden ratio
/// scaled to 64 bits.
pub const GAMMA: u64 = 0x9e37_79b9_7f4a_7c15;

/// First multiplier of the SplitMix64 finalizer.
pub const MIX_MUL_1: u64 = 0xbf58_476d_1ce4_e5b9;

/// Second multiplier of the SplitMix64 finalizer.
pub const MIX_MUL_2: u64 = 0x94d0_49bb_1331_11eb;

/// Multiplication modulo 2^64.
pub open spec fn wrap_mul(x: u64, y: u64) -> u64 {
    ((x as nat * y as nat) % 0x1_0000_0000_0000_0000nat) as u64
}

/// Addition modulo 2^64.
pub open spec fn wrap_add(x: u64, y: u64) -> u64 {
    ((x as nat + y as nat) % 0x1_0000_0000_0000_0000nat) as u64
}

/// One FNV-1a step: fold one byte into the running hash.
pub open spec fn fnv_step(hash: u64, byte: u8) -> u64 {
    wrap_mul(hash ^ (byte as u64), FNV_PRIME)
}

/// FNV-1a over a byte string, folded left to right from the offset basis.
pub open spec fn fnv1a(bytes: Seq<u8>) -> u64
    decreases bytes.len(),
{
    if bytes.len() == 0 {
        FNV_OFFSET_BASIS
    } else {
        fnv_step(fnv1a(bytes.drop_last()), bytes.last())
    }
}

/// FNV-1a over a domain name.
///
/// Domain identifiers therefore need no hand-assigned integers that can drift
/// or collide: adding a domain never disturbs an existing one, and renaming one
/// changes the world.
pub fn domain(name: &[u8]) -> (hash: u64)
    ensures
        hash == fnv1a(name@),
{
    let mut hash: u64 = FNV_OFFSET_BASIS;
    let mut i: usize = 0;
    while i < name.len()
        invariant
            i <= name@.len(),
            hash == fnv1a(name@.take(i as int)),
        decreases name@.len() - i,
    {
        assert(name@.take(i as int + 1).drop_last() =~= name@.take(i as int));
        hash = hash ^ (name[i] as u64);
        hash = hash.wrapping_mul(FNV_PRIME);
        i = i + 1;
    }
    assert(name@.take(name@.len() as int) =~= name@);
    hash
}

/// Domain: broad continental land/ocean structure. FNV-1a of
/// `b"continentalness"`.
pub const DOM_CONTINENTALNESS: u64 = 0xe6a3_e327_f102_50f5;
/// Domain: regional uplift applied on top of continentalness. FNV-1a of
/// `b"regional-elevation"`.
pub const DOM_REGIONAL_ELEVATION: u64 = 0xe3b0_ad5b_6320_39e6;
/// Domain: local relief and roughness. FNV-1a of `b"relief"`.
pub const DOM_RELIEF: u64 = 0xfa18_9c4d_af36_7720;
/// Domain: moisture field. FNV-1a of `b"moisture"`.
pub const DOM_MOISTURE: u64 = 0x4532_a032_9655_240f;
/// Domain: heat field. FNV-1a of `b"temperature"`.
pub const DOM_TEMPERATURE: u64 = 0x5565_75c1_ce10_7955;
/// Domain: fine terrain detail. FNV-1a of `b"terrain-detail"`.
pub const DOM_TERRAIN_DETAIL: u64 = 0xa90f_24aa_e7b9_a828;
/// Domain: per-region character selection. FNV-1a of `b"region-style"`.
pub const DOM_REGION_STYLE: u64 = 0x4115_6f2b_a1d9_a7d5;
/// Domain: ridge orientation, stored as a unit vector rather than an angle.
/// FNV-1a of `b"ridge-orientation"`.
pub const DOM_RIDGE_ORIENTATION: u64 = 0x0f5b_ac88_66b1_037b;
/// Domain: basin influence. FNV-1a of `b"basin"`.
pub const DOM_BASIN: u64 = 0xd6e8_5182_6dfb_0aa6;
/// Domain: volcanic tendency. FNV-1a of `b"volcanic"`.
pub const DOM_VOLCANIC: u64 = 0x3208_6c8b_90c6_35b8;
/// Domain: ridged structure term of the elevation composite. FNV-1a of
/// `b"ridge-structure"`.
pub const DOM_RIDGE_STRUCTURE: u64 = 0xe29a_7e33_1d9b_a86c;
/// Domain: short-wavelength moisture variation. FNV-1a of
/// `b"moisture-variation"`.
pub const DOM_MOISTURE_VARIATION: u64 = 0x2427_b6a4_1708_b52f;
/// Domain: geographic warp, x component. FNV-1a of `b"warp-x"`.
pub const DOM_WARP_X: u64 = 0xa1e1_8632_3c66_62fa;
/// Domain: geographic warp, y component. FNV-1a of `b"warp-y"`.
pub const DOM_WARP_Y: u64 = 0xa1e1_8732_3c66_64ad;
/// Domain: detail warp, x component. FNV-1a of `b"detail-warp-x"`.
pub const DOM_DETAIL_WARP_X: u64 = 0xcbea_8698_f30a_6740;
/// Domain: detail warp, y component. FNV-1a of `b"detail-warp-y"`.
pub const DOM_DETAIL_WARP_Y: u64 = 0xcbea_8798_f30a_68f3;
/// Domain: the per-field offset that keeps two fields sharing a lattice from
/// sampling it at the same points. FNV-1a of `b"field-offset"`.
pub const DOM_FIELD_OFFSET: u64 = 0xb8f5_3a94_de4a_5069;

/// The SplitMix64 finalizer: an avalanche step where every input bit affects
/// every output bit.
pub open spec fn mix64_spec(z: u64) -> u64 {
    let z1 = wrap_mul(z ^ (z >> 30u64), MIX_MUL_1);
    let z2 = wrap_mul(z1 ^ (z1 >> 27u64), MIX_MUL_2);
    z2 ^ (z2 >> 31u64)
}

/// The SplitMix64 finalizer, with explicitly wrapping arithmetic.
pub fn mix64(z: u64) -> (mixed: u64)
    ensures
        mixed == mix64_spec(z),
{
    let z1 = (z ^ (z >> 30)).wrapping_mul(MIX_MUL_1);
    let z2 = (z1 ^ (z1 >> 27)).wrapping_mul(MIX_MUL_2);
    z2 ^ (z2 >> 31)
}

/// Folds a sequence of integers into an accumulator, first to last.
///
/// Each value is separated from the last by [`GAMMA`] and reinterpreted as its
/// two's-complement bit pattern, so negative coordinates are first-class.
pub open spec fn hash_fold(acc: u64, values: Seq<i64>) -> u64
    decreases values.len(),
{
    if values.len() == 0 {
        acc
    } else {
        mix64_spec(
            wrap_add(wrap_add(hash_fold(acc, values.drop_last()), GAMMA), values.last() as u64),
        )
    }
}

/// The hash of a seed, a domain, and a sequence of integers.
pub open spec fn hash_spec(seed: Seed, domain: u64, values: Seq<i64>) -> u64 {
    hash_fold(mix64_spec(seed ^ domain), values)
}

/// Hashes a seed, a domain, and `N` integers to a `u64`.
///
/// Inputs are folded in a fixed order, so `hash_n(s, d, [a, b])` and
/// `hash_n(s, d, [b, a])` differ, and arities do not alias.
pub fn hash_n<const N: usize>(seed: Seed, domain: u64, values: [i64; N]) -> (hash: u64)
    ensures
        hash == hash_spec(seed, domain, values@),
{
    let mut acc = mix64(seed ^ domain);
    let mut i: usize = 0;
    while i < N
        invariant
            i <= N,
            values@.len() == N,
            acc == hash_fold(mix64_spec(seed ^ domain), values@.take(i as int)),
        decreases N - i,
    {
        assert(values@.take(i as int + 1).drop_last() =~= values@.take(i as int));
        let bits = values[i] as u64;
        acc = mix64(acc.wrapping_add(GAMMA).wrapping_add(bits));
        i = i + 1;
    }
    assert(values@.take(N as int) =~= values@);
    acc
}

/// Hashes a seed, a domain, and two integers. See [`hash_n`].
pub fn hash2(seed: Seed, domain: u64, a: i64, b: i64) -> (hash: u64)
    ensures
        hash == hash_spec(seed, domain, seq![a, b]),
{
    let h = hash_n(seed, domain, [a, b]);
    proof {
        assert([a, b]@ =~= seq![a, b]);
    }
    h
}

/// Hashes a seed, a domain, and three integers. See [`hash_n`].
pub fn hash3(seed: Seed, domain: u64, a: i64, b: i64, c: i64) -> (hash: u64)
    ensures
        hash == hash_spec(seed, domain, seq![a, b, c]),
{
    let h = hash_n(seed, domain, [a, b, c]);
    proof {
        assert([a, b, c]@ =~= seq![a, b, c]);
    }
    h
}

/// Domain derivation folds every byte of the name: the empty name gives the
/// offset basis, and appending a byte applies one more FNV-1a step to the
/// domain of the name before it.
pub proof fn law_domain_folds_every_byte(name: Seq<u8>, byte: u8)
    ensures
        fnv1a(Seq::<u8>::empty()) == FNV_OFFSET_BASIS,
        fnv1a(name.push(byte)) == wrap_mul(fnv1a(name) ^ (byte as u64), FNV_PRIME),
{
    assert(name.push(byte).drop_last() =~= name);
}

/// Hashing folds every value, in order: with no values the hash is the mixed
/// seed and domain, and appending a value applies one more mixing step, fed
/// the hash of the values before it plus [`GAMMA`] plus the new value's bits.
/// So changing only the last value of a hash of any arity changes the input
/// of its final mixing step.
pub proof fn law_hash_folds_every_value(seed: Seed, domain: u64, values: Seq<i64>, x: i64)
    ensures
        hash_spec(seed, domain, Seq::<i64>::empty()) == mix64_spec(seed ^ domain),
        hash_spec(seed, domain, values.push(x)) == mix64_spec(
            wrap_add(wrap_add(hash_spec(seed, domain, values), GAMMA), x as u64),
        ),
{
    assert(values.push(x).drop_last() =~= values);
}

} // verus!
