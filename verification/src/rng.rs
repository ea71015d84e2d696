//! Random draws, all made through `rand`'s `StdRng`.
//!
//! Every item in this file is trusted: it calls `rand` and states only what
//! holds of every value it can hand back (the range the value lies in).

use rand::rngs::StdRng;
use rand::seq::SliceRandom;
use rand::Rng;
use vstd::prelude::*;

verus! {

/// The seeded generator of `rand` that every draw of this library uses.
#[verifier::external_type_specification]
#[verifier::external_body]
pub struct ExStdRng(StdRng);

/// `Rng::gen_range` on the inclusive range `lo..=hi` of `i32`.
/// The value lies in that range; which one it is depends on the generator.
#[verifier::external_body]
pub fn random_i32(rng: &mut StdRng, lo: i32, hi: i32) -> (r: i32)
    requires
        lo <= hi,
    ensures
        lo <= r <= hi,
{
    rng.gen_range(lo..=hi)
}

/// `Rng::gen_range` on the inclusive range `lo..=hi` of `u8`.
#[verifier::external_body]
pub fn random_u8(rng: &mut StdRng, lo: u8, hi: u8) -> (r: u8)
    requires
        lo <= hi,
    ensures
        lo <= r <= hi,
{
    rng.gen_range(lo..=hi)
}

/// `Rng::gen_range` on the inclusive range `lo..=hi` of `u32`.
#[verifier::external_body]
pub fn random_u32(rng: &mut StdRng, lo: u32, hi: u32) -> (r: u32)
    requires
        lo <= hi,
    ensures
        lo <= r <= hi,
{
    rng.gen_range(lo..=hi)
}

/// `Rng::gen::<u32>()`: 32 random bits; any `u32` can come back.
#[verifier::external_body]
pub fn random_bits(rng: &mut StdRng) -> (r: u32) {
    rng.gen::<u32>()
}

/// `Rng::gen_range` on the inclusive range `lo..=hi` of `usize`.
#[verifier::external_body]
pub fn random_usize(rng: &mut StdRng, lo: usize, hi: usize) -> (r: usize)
    requires
        lo <= hi,
    ensures
        lo <= r <= hi,
{
    rng.gen_range(lo..=hi)
}

/// `Rng::gen_ratio`: `true` with chance `numerator / denominator`.
/// `rand` documents that the result is always `false` when the numerator is
/// zero and always `true` when it equals the denominator; it panics when the
/// denominator is zero or smaller than the numerator, which `requires` rules out.
#[verifier::external_body]
pub fn random_ratio(rng: &mut StdRng, numerator: u32, denominator: u32) -> (r: bool)
    requires
        0 < denominator,
        numerator <= denominator,
    ensures
        numerator == 0 ==> !r,
        numerator == denominator ==> r,
{
    rng.gen_ratio(numerator, denominator)
}

/// `SliceRandom::shuffle` on a vector of grid cells: the cells are permuted in
/// place (the source swaps elements only), so the multiset of cells stays the same.
#[verifier::external_body]
pub fn shuffle_cells(cells: &mut Vec<(i32, i32)>, rng: &mut StdRng)
    ensures
        final(cells)@.to_multiset() == old(cells)@.to_multiset(),
        final(cells)@.len() == old(cells)@.len(),
{
    cells.shuffle(rng)
}

} // verus!
