//! The secret provider: one bounded random integer per round, drawn from the
//! thread-local generator of the `rand` crate. The generator handle is
//! created lazily on first use and reused for the rest of the process.

use vstd::prelude::*;

verus! {

/// The lower bound of the default secret range.
pub const MIN_SECRET: usize = 0;

/// The bound just above the default secret range.
pub const MAX_SECRET: usize = 100;

#[verifier::external_type_specification]
#[verifier::external_body]
pub struct ExThreadRng(rand::rngs::ThreadRng);

/// Relies on `rand::rng`: a handle to the thread-local generator. It panics
/// only if the operating system's randomness source fails at first seeding.
#[verifier::external_body]
fn new_thread_rng() -> rand::rngs::ThreadRng {
    rand::rng()
}

/// Relies on `ThreadRng::clone`: another handle to the same thread-local
/// generator.
#[verifier::external_body]
fn clone_rng(rng: &rand::rngs::ThreadRng) -> rand::rngs::ThreadRng {
    rng.clone()
}

/// Relies on `rand::RngExt::random_range` over `min..max`: a value in
/// `[min, max)`. It panics on an empty range, which the precondition rules
/// out; nothing is assumed about which value comes back beyond its range.
#[verifier::external_body]
fn sample_range(rng: &mut rand::rngs::ThreadRng, min: usize, max: usize) -> (r: usize)
    requires
        min < max,
    ensures
        min <= r < max,
{
    rand::RngExt::random_range(rng, min..max)
}

/// The secret provider: the lazily created generator handle and the bounds
/// secrets are drawn between.
pub struct NumberGenerator {
    pub thread_rng: Option<rand::rngs::ThreadRng>,
    pub max: usize,
    pub min: usize,
}

impl NumberGenerator {
    /// A number generator based on the thread-local generator with the given
    /// min and max values.
    pub fn new(min: usize, max: usize) -> (g: NumberGenerator)
        ensures
            g.min == min,
            g.max == max,
            g.thread_rng is None,
    {
        NumberGenerator { thread_rng: None, max, min }
    }

    /// Generates a secret number: a value in `[self.min, self.max)`. The
    /// caller must guarantee `min < max`; the range bounds are kept as they
    /// are.
    pub fn gen_secret(&mut self) -> (r: usize)
        requires
            old(self).min < old(self).max,
        ensures
            old(self).min <= r < old(self).max,
            final(self).min == old(self).min,
            final(self).max == old(self).max,
    {
        let mut rng = self.get_rng();
        let min = self.min;
        let max = self.max;
        sample_range(&mut rng, min, max)
    }

    fn get_rng(&mut self) -> (rng: rand::rngs::ThreadRng)
        ensures
            final(self).min == old(self).min,
            final(self).max == old(self).max,
    {
        if self.thread_rng.is_none() {
            self.init_rng();
        }
        clone_rng(self.thread_rng.as_ref().unwrap())
    }

    fn init_rng(&mut self)
        ensures
            final(self).thread_rng is Some,
            final(self).min == old(self).min,
            final(self).max == old(self).max,
    {
        self.thread_rng = Some(new_thread_rng());
    }
}

impl Default for NumberGenerator {
    /// A number generator with the default secret range: secrets in
    /// `[MIN_SECRET, MAX_SECRET)`.
    fn default() -> (g: Self)
        ensures
            g.min == MIN_SECRET,
            g.max == MAX_SECRET,
            g.thread_rng is None,
    {
        Self::new(MIN_SECRET, MAX_SECRET)
    }
}

} // verus!
