//! The deterministic integer mixing hash behind the lattice gradients.
//!
//! Three rounds of a multiply-rotate-xor scramble give the hash avalanche
//! behaviour, so nearby lattice vertices get uncorrelated directions while
//! the same vertex always hashes to the same byte.

use vstd::prelude::*;

verus! {

/// Rotate a 32-bit word left by `k` bits, `0 < k < 32`.
pub open spec fn rotl_spec(x: u32, k: u32) -> u32 {
    (x << k) | (x >> (32 - k))
}

/// One mixing round: multiply by an odd constant (wrapping), then xor
/// the product with a left rotation of itself.
pub open spec fn mix_spec(v: u32, m: u32, k: u32) -> u32 {
    let t = v.wrapping_mul(m);
    t ^ rotl_spec(t, k)
}

/// The full mixing hash: three rounds with fixed odd multipliers and
/// rotation distances, truncated to a byte.
pub open spec fn hash_spec(v: u32) -> u8 {
    mix_spec(mix_spec(mix_spec(v, 7919, 7), 7723, 11), 7561, 13) as u8
}

/// Rotate a 32-bit word left by `k` bits.
pub fn rotl(x: u32, k: u32) -> (r: u32)
    requires
        0 < k < 32,
    ensures
        r == rotl_spec(x, k),
{
    (x << k) | (x >> (32 - k))
}

/// Map an input word to a pseudo-random byte: the same input always gives
/// the same byte, while close inputs give unrelated bytes.
pub fn hash(value: u32) -> (h: u8)
    ensures
        h == hash_spec(value),
{
    let r1 = value.wrapping_mul(7919);
    let r1 = r1 ^ rotl(r1, 7);
    let r2 = r1.wrapping_mul(7723);
    let r2 = r2 ^ rotl(r2, 11);
    let r3 = r2.wrapping_mul(7561);
    let r3 = r3 ^ rotl(r3, 13);
    #[verifier::truncate]
    (r3 as u8)
}

} // verus!
