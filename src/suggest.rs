use rand::rngs::StdRng;
use rand::SeedableRng;
use tpe::density_estimation::DefaultEstimatorBuilder;
use tpe::TpeOptimizer;
use vstd::prelude::*;

verus! {

/// Largest category count asked of an optimizer; well within the range where
/// its floating-point bounds and proposals are exact integers.
pub const MAX_CHOICES: usize = 0xFFFF_FFFF;

#[verifier::external_type_specification]
#[verifier::external_body]
#[verifier::reject_recursive_types(T)]
pub struct ExTpeOptimizer<T>(TpeOptimizer<T>);

#[verifier::external_type_specification]
#[verifier::external_body]
pub struct ExDefaultEstimatorBuilder(DefaultEstimatorBuilder);

#[verifier::external_type_specification]
#[verifier::external_body]
pub struct ExStdRng(StdRng);

/// Number of categories (indices `0..n`) an optimizer proposes from.
pub uninterp spec fn choice_count(o: TpeOptimizer<DefaultEstimatorBuilder>) -> nat;

/// Relies on tpe::TpeOptimizer::new, tpe::histogram_estimator and
/// tpe::categorical_range: an optimizer over the categories `0..choices`
/// (`categorical_range` fails only for an empty or non-finite range).
#[verifier::external_body]
pub(crate) fn new_index_optimizer(choices: usize) -> (r: TpeOptimizer<DefaultEstimatorBuilder>)
    requires
        1 <= choices <= MAX_CHOICES,
    ensures
        choice_count(r) == choices,
{
    TpeOptimizer::new(tpe::histogram_estimator(), tpe::categorical_range(choices).unwrap())
}

/// Relies on tpe::TpeOptimizer::ask: with a histogram estimator the proposal is
/// a category index drawn from a weighted index over the optimizer's categories,
/// so it lies below their count; the estimator's error type is uninhabited.
#[verifier::external_body]
pub(crate) fn ask_index(o: &mut TpeOptimizer<DefaultEstimatorBuilder>, rng: &mut StdRng) -> (r:
    usize)
    ensures
        r < choice_count(*old(o)),
        choice_count(*final(o)) == choice_count(*old(o)),
{
    o.ask(rng).unwrap() as usize
}

/// Relies on tpe::TpeOptimizer::tell: records the score of a proposed category
/// (both handed over as the optimizer's floating-point values, exact for an
/// index below `MAX_CHOICES`); it fails only for a category outside the range
/// or a NaN score, which an index below the count and an integer score rule out.
#[verifier::external_body]
pub(crate) fn tell_score(o: &mut TpeOptimizer<DefaultEstimatorBuilder>, index: usize, score: u64)
    requires
        index < choice_count(*old(o)),
    ensures
        choice_count(*final(o)) == choice_count(*old(o)),
{
    o.tell(index as _, score as _).unwrap()
}

/// Relies on rand::SeedableRng::from_seed for rand::rngs::StdRng: a generator
/// seeded with all-zero bytes, so that every run draws the same sequence.
#[verifier::external_body]
pub(crate) fn zero_seeded_rng() -> StdRng {
    StdRng::from_seed(Default::default())
}

/// A black-box search over the indices `0..choices()`: it proposes an index
/// and learns from the score (lower is better) of an index it proposed.
pub trait IndexSuggester: Sized {
    spec fn choices(&self) -> nat;

    fn with_choices(choices: usize) -> (r: Self)
        requires
            1 <= choices <= MAX_CHOICES,
        ensures
            r.choices() == choices,
    ;

    fn suggest(&mut self, rng: &mut StdRng) -> (r: usize)
        ensures
            r < old(self).choices(),
            final(self).choices() == old(self).choices(),
    ;

    fn reward(&mut self, index: usize, score: u64)
        requires
            index < old(self).choices(),
        ensures
            final(self).choices() == old(self).choices(),
    ;
}

/// Index suggester driven by a tree-structured Parzen estimator over a
/// histogram of the categories.
pub struct TpeSuggester {
    optimizer: TpeOptimizer<DefaultEstimatorBuilder>,
}

impl IndexSuggester for TpeSuggester {
    closed spec fn choices(&self) -> nat {
        choice_count(self.optimizer)
    }

    fn with_choices(choices: usize) -> (r: Self) {
        TpeSuggester { optimizer: new_index_optimizer(choices) }
    }

    fn suggest(&mut self, rng: &mut StdRng) -> (r: usize) {
        ask_index(&mut self.optimizer, rng)
    }

    fn reward(&mut self, index: usize, score: u64) {
        tell_score(&mut self.optimizer, index, score)
    }
}

} // verus!
