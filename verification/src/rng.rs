//! The two random sources of the algorithm, behind trusted wrappers: a
//! seeded, reproducible byte stream for building generation zero, and a
//! non-reproducible uniform draw for crossover decisions.

use rand::Rng;
use rand::SeedableRng;
use vstd::prelude::*;

verus! {

/// Scale of the crossover rate: a rate of `CROSS_RATE_SCALE` means every
/// pixel is taken from the first parent, a rate of 0 none.
pub const CROSS_RATE_SCALE: u32 = 1_000_000;

/// The first `n` draws of an Isaac64 generator seeded with `seed`, sampling
/// uniformly over the whole byte range. The stream is a function of the seed
/// alone, so two equally seeded generators yield the same bytes.
pub uninterp spec fn isaac_stream(seed: u64, n: int) -> Seq<u8>;

/// Relies on rand_isaac's `Isaac64Rng` through rand_core's
/// `SeedableRng::seed_from_u64` and rand's `Uniform::new_inclusive(0, 255)`:
/// a generator seeded from a value yields one fixed, reproducible stream of
/// uniform byte samples.
#[verifier::external_body]
pub fn isaac_uniform_bytes(seed: u64, n: usize) -> (r: Vec<u8>)
    ensures
        r@ == isaac_stream(seed, n as int),
        r@.len() == n,
{
    let mut rng = rand_isaac::isaac64::Isaac64Rng::seed_from_u64(seed);
    let uniform: rand::distributions::Uniform<u8> =
        rand::distributions::Uniform::new_inclusive(0, 255);
    let mut out: Vec<u8> = Vec::with_capacity(n);
    for _ in 0..n {
        out.push(rng.sample(uniform));
    }
    out
}

/// Relies on rand's `Rng::gen_range` on `thread_rng`: the sample lies in the
/// half-open range handed to it. Nothing more is assumed; the draw is not
/// reproducible.
#[verifier::external_body]
pub fn random_below_cross_scale() -> (r: u32)
    ensures
        r < CROSS_RATE_SCALE,
{
    rand::thread_rng().gen_range(0..CROSS_RATE_SCALE)
}

} // verus!
