use vstd::prelude::*;

use crate::PAGE_SIZE;

verus! {

/// The bytes that rand's standard generator yields when seeded with `seed`.
pub uninterp spec fn seeded_bytes(seed: u64) -> Seq<u8>;

/// Relies on rand's `StdRng::seed_from_u64` and `RngCore::fill_bytes`: a page of
/// bytes from the standard generator seeded with `seed`, which depend on the
/// seed alone.
#[verifier::external_body]
fn seeded_page(seed: u64) -> (r: [u8; PAGE_SIZE])
    ensures
        r@ == seeded_bytes(seed),
{
    let mut rng: rand::rngs::StdRng = rand::SeedableRng::seed_from_u64(seed);
    let mut data = [0u8; PAGE_SIZE];
    rand::RngCore::fill_bytes(&mut rng, &mut data);
    data
}

/// A page of pseudo-random bytes, the same on every call.
pub fn create_random_binary_page_data() -> (r: [u8; PAGE_SIZE])
    ensures
        r@ == seeded_bytes(1),
{
    seeded_page(1)
}

} // verus!
