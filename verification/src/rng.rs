//! Trusted access to the pseudo-random sources. Every draw is a byte below
//! 255; being random, nothing further is assumed of any value.

use vstd::prelude::*;
use rand::Rng;
use rand::SeedableRng;
use rand::rngs::SmallRng;
use rayon::iter::IntoParallelRefMutIterator;
use rayon::iter::ParallelIterator;

verus! {

/// Relies on rand's `thread_rng` and `Rng::gen_range(0..255)`: one draw from
/// the thread-local generator, uniform over `[0, 255)`. The value is random,
/// so only its bound is stated.
#[verifier::external_body]
pub(crate) fn random_byte() -> (r: u8)
    ensures
        r < 255,
{
    rand::thread_rng().gen_range(0..255)
}

/// Relies on rayon's `par_iter_mut`/`for_each` — every element is handed to
/// the closure exactly once and only elements are touched, so the length is
/// kept — and on rand's `SmallRng::from_entropy` with `gen_range(0..255)`:
/// each element becomes a draw below 255. The generators are entropy-seeded,
/// so the values are not reproducible and only their bound is stated.
#[verifier::external_body]
pub(crate) fn par_fill_random(v: &mut Vec<u8>)
    ensures
        final(v)@.len() == old(v)@.len(),
        forall|m: int| 0 <= m < final(v)@.len() ==> final(v)@[m] < 255,
{
    v.par_iter_mut().for_each(|x| {
        let mut rng = SmallRng::from_entropy();
        *x = rng.gen_range(0..255);
    });
}

} // verus!
