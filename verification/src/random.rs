use rand::Rng;
use vstd::prelude::*;

verus! {

#[verifier::external_type_specification]
#[verifier::external_body]
pub struct ExThreadRng(rand::rngs::ThreadRng);

/// Calls `rand::thread_rng`, which hands back the calling thread's random
/// number generator (rand panics only when the operating system gives it no
/// seed). Nothing is claimed of the generator.
#[verifier::external_body]
pub(crate) fn thread_rng() -> rand::rngs::ThreadRng {
    rand::thread_rng()
}

/// Calls `Rng::gen_ratio` on `rng`, which draws `true` with probability
/// `numerator / denominator`. The draw is left open; what is claimed is what
/// rand's source guarantees of every draw: the answer is `false` when
/// `numerator` is 0 and `true` when `numerator == denominator`. rand panics
/// when `denominator` is 0 or `numerator > denominator`; `requires` rules
/// both out.
#[verifier::external_body]
pub(crate) fn gen_ratio(rng: &mut rand::rngs::ThreadRng, numerator: u32, denominator: u32) -> (b: bool)
    requires
        0 < denominator,
        numerator <= denominator,
    ensures
        numerator == 0 ==> !b,
        numerator == denominator ==> b,
{
    rng.gen_ratio(numerator, denominator)
}

} // verus!
