//! The random source of a run.
use vstd::prelude::*;

verus! {

#[verifier::external_type_specification]
#[verifier::external_body]
pub struct ExStdRng(rand::rngs::StdRng);

/// Relies on `rand::RngCore::next_u64` for `rand::rngs::StdRng`: the next 64
/// bits of the generator's stream. Nothing is known of their value.
#[verifier::external_body]
fn generator_next_u64(rng: &mut rand::rngs::StdRng) -> u64 {
    rand::RngCore::next_u64(rng)
}

/// A random generator, with a record of the draws taken through `next_u64`.
pub struct RandomSource {
    /// The generator, for drawing what the record need not hold.
    pub rng: rand::rngs::StdRng,
    drawn: Ghost<Seq<u64>>,
}

impl RandomSource {
    /// The draws taken through `next_u64` so far, in order.
    pub closed spec fn drawn(&self) -> Seq<u64> {
        self.drawn@
    }

    pub fn new(rng: rand::rngs::StdRng) -> (r: Self)
        ensures
            r.drawn() == Seq::<u64>::empty(),
    {
        RandomSource { rng, drawn: Ghost(Seq::empty()) }
    }

    /// The next 64 bits of the generator, added to the record.
    pub fn next_u64(&mut self) -> (r: u64)
        ensures
            final(self).drawn() == old(self).drawn().push(r),
    {
        let r = generator_next_u64(&mut self.rng);
        self.drawn = Ghost(self.drawn@.push(r));
        r
    }
}

} // verus!
