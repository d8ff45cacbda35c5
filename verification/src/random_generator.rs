//! The source of randomness, handed to every call that draws from it.

use rand::Rng;
use vstd::prelude::*;
use crate::scalar::Scalar;

verus! {

/// The generator of the `rand` crate that belongs to the calling thread.
#[verifier::external_type_specification]
#[verifier::external_body]
pub struct ExThreadRng(rand::rngs::ThreadRng);

pub struct RandomGenerator {
    rng: rand::rngs::ThreadRng,
}

impl RandomGenerator {
    /// Takes hold of the calling thread's generator, through
    /// `rand::thread_rng`, which stops the program where the system has no
    /// seed to give. Nothing is claimed of the generator.
    #[verifier::external_body]
    pub fn new() -> (generator: RandomGenerator) {
        RandomGenerator { rng: rand::thread_rng() }
    }

    /// A number drawn from zero up to, but not including, `scale`.
    ///
    /// This draws a raw count through `Rng::gen_range` on the half-open range
    /// from zero to the raw count of `scale`. That function stops the program
    /// on an empty range, hence the demand that `scale` be positive, and
    /// returns a number of the range, which is all that is claimed here.
    #[verifier::external_body]
    pub fn value(&mut self, scale: Scalar) -> (v: Scalar)
        requires
            scale@ > 0,
        ensures
            0 <= v@ < scale@,
    {
        Scalar { raw: self.rng.gen_range(0..scale.raw) }
    }
}

} // verus!
