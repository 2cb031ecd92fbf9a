use rand::Rng;
use rand_seeder::rand_core::RngCore;
use rand_seeder::{Seeder, SipRng};
use vstd::prelude::*;

verus! {

/// rand_seeder's SipHash-based generator, carried through the library unopened.
#[verifier::external_type_specification]
#[verifier::external_body]
pub struct ExSipRng(SipRng);

/// Relies on rand_seeder's `Seeder::from` and `Seeder::make_rng`: a generator
/// seeded from the hash of the string.
#[verifier::external_body]
pub(crate) fn seeded_rng(seed: &String) -> (r: SipRng) {
    Seeder::from(seed.clone()).make_rng()
}

/// Relies on `RngCore::next_u32` of rand_seeder's `SipRng`: the next raw draw.
#[verifier::external_body]
pub(crate) fn next_u32(rng: &mut SipRng) -> (r: u32) {
    rng.next_u32()
}

/// Relies on rand's `Rng::gen_range`, which panics on an empty range and
/// otherwise returns a value of the half-open range `lo..hi`.
#[verifier::external_body]
pub(crate) fn gen_range(rng: &mut SipRng, lo: u32, hi: u32) -> (r: u32)
    requires
        lo < hi,
    ensures
        lo <= r < hi,
{
    rng.gen_range(lo..hi)
}

} // verus!
