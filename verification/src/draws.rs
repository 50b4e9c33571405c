//! The random draws of the workload: a seeded generator together with a record
//! of every draw made from it, what was asked for and what came out.
use vstd::prelude::*;
use rand::distr::Distribution;
use rand::distr::weighted::WeightedIndex;
use rand::rngs::StdRng;
use rand::Rng;
use rand::SeedableRng;
use crate::workload::weight_error;

verus! {

#[verifier::external_type_specification]
#[verifier::external_body]
pub struct ExStdRng(StdRng);

/// `WeightedIndex::sample` on `WeightedIndex::new(&[cpu, io])`: draws a value
/// below the sum of the weights and gives the index of the weight it falls in,
/// so an index below 2 whose weight is positive. Which index comes depends on
/// the state of the generator and is not stated. Building the index from the
/// weights consumes nothing of the generator.
#[verifier::external_body]
fn sample_kind_index(cpu: i32, io: i32, rng: &mut StdRng) -> (i: usize)
    requires
        weight_error(cpu, io) is None,
    ensures
        i < 2,
        i == 0 ==> cpu > 0,
        i == 1 ==> io > 0,
{
    WeightedIndex::new(&[cpu, io]).unwrap().sample(rng)
}

/// `Rng::random_range(low..high)`: a number from `low` up to, not including,
/// `high`; which one depends on the state of the generator and is not stated.
#[verifier::external_body]
fn random_in_range(rng: &mut StdRng, low: u64, high: u64) -> (v: u64)
    requires
        low < high,
    ensures
        low <= v < high,
{
    rng.random_range(low..high)
}

/// `StdRng::seed_from_u64`: a generator seeded from `seed`. Its stream of
/// numbers is not stated.
#[verifier::external_body]
fn seeded_rng(seed: u64) -> (rng: StdRng) {
    StdRng::seed_from_u64(seed)
}

/// One draw from the generator: a kind index from the weights `[cpu, io]`, or a
/// number from `low..high`, with what it gave.
pub enum Draw {
    Kind { cpu: i32, io: i32, index: usize },
    Number { low: u64, high: u64, value: u64 },
}

/// A seeded generator and the record of the draws made from it, in order.
pub struct DrawSource {
    rng: StdRng,
    draws: Ghost<Seq<Draw>>,
}

impl DrawSource {
    /// The draws made so far, in order.
    pub closed spec fn draws(&self) -> Seq<Draw> {
        self.draws@
    }

    /// A generator seeded from `seed`, with no draw made yet.
    pub fn seeded(seed: u64) -> (source: Self)
        ensures
            source.draws() == Seq::<Draw>::empty(),
    {
        DrawSource { rng: seeded_rng(seed), draws: Ghost(Seq::empty()) }
    }

    /// Draws a kind index from the weights `[cpu, io]`: below 2, with a positive
    /// weight, and recorded with the weights it was drawn from.
    pub fn sample_kind(&mut self, cpu: i32, io: i32) -> (index: usize)
        requires
            weight_error(cpu, io) is None,
        ensures
            index < 2,
            index == 0 ==> cpu > 0,
            index == 1 ==> io > 0,
            final(self).draws() == old(self).draws().push(Draw::Kind { cpu, io, index }),
    {
        let index = sample_kind_index(cpu, io, &mut self.rng);
        self.draws = Ghost(self.draws@.push(Draw::Kind { cpu, io, index }));
        index
    }

    /// Draws a number from `low..high`, recorded with the range it was drawn from.
    pub fn random_number(&mut self, low: u64, high: u64) -> (value: u64)
        requires
            low < high,
        ensures
            low <= value < high,
            final(self).draws() == old(self).draws().push(Draw::Number { low, high, value }),
    {
        let value = random_in_range(&mut self.rng, low, high);
        self.draws = Ghost(self.draws@.push(Draw::Number { low, high, value }));
        value
    }
}

} // verus!
