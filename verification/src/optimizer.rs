//! The configuration of the two optimisers, and the choice between them.

use crate::genetic::GeneticAlgorithm;
use crate::neldermead::NelderMead;
use vstd::prelude::*;

verus! {

/// What an optimiser is run with.
#[derive(Clone, Copy, Debug)]
pub enum OptOptions {
    /// The defaults of whichever optimiser is chosen.
    Default,
    NelderMead {
        /// The iteration budget; zero stands for 200 times the number of
        /// optimised parameters.
        max_iter: u64,
        adaptive: bool,
        /// The tolerance on the coordinates, as an order key.
        x_abstol: i64,
        /// The tolerance on the objective, as an order key.
        f_abstol: i64,
        verbose: bool,
    },
    GeneticAlgorithm {
        max_gen: u64,
        n_pop: usize,
        /// The probability that a gene is mutated, as an order key.
        mutation_rate: i64,
        verbose: bool,
    },
}

/// Why an optimiser cannot be set up.
#[derive(Clone, Copy, Debug, PartialEq, Eq)]
pub enum OptError {
    /// The options are those of the other optimiser.
    InvalidOptions,
    /// The genetic algorithm was chosen for a model that declares no bounds.
    MissingBounds,
}

/// An optimiser ready to run on a problem of known size.
#[derive(Clone, Copy, Debug)]
pub enum ConcreteOptimizer {
    NelderMead(NelderMead),
    GeneticAlgorithm(GeneticAlgorithm),
}

/// The choice of optimiser, with its options.
#[derive(Clone, Copy, Debug)]
pub enum Optimizer {
    NelderMead(OptOptions),
    GeneticAlgorithm(OptOptions),
}

impl Optimizer {
    /// What `prepare` returns.
    pub open spec fn spec_prepare(self, len_x: usize, has_bounds: bool) -> Result<ConcreteOptimizer, OptError> {
        match self {
            Optimizer::NelderMead(options) => match NelderMead::spec_new(len_x, options) {
                Ok(nm) => Ok(ConcreteOptimizer::NelderMead(nm)),
                Err(e) => Err(e),
            },
            Optimizer::GeneticAlgorithm(options) => match GeneticAlgorithm::spec_new(len_x, options) {
                Ok(ga) => if has_bounds {
                    Ok(ConcreteOptimizer::GeneticAlgorithm(ga))
                } else {
                    Err(OptError::MissingBounds)
                },
                Err(e) => Err(e),
            },
        }
    }

    /// Sets up the chosen optimiser for `len_x` optimised parameters.
    /// `has_bounds` says whether the model declares bounds for them.
    ///
    /// Fails with `InvalidOptions` where the options belong to the other
    /// optimiser, and with `MissingBounds` where the genetic algorithm is
    /// chosen with valid options but without bounds.
    pub fn prepare(&self, len_x: usize, has_bounds: bool) -> (r: Result<ConcreteOptimizer, OptError>)
        ensures
            r == self.spec_prepare(len_x, has_bounds),
    {
        match self {
            Optimizer::NelderMead(options) => match NelderMead::new(len_x, options) {
                Ok(nm) => Ok(ConcreteOptimizer::NelderMead(nm)),
                Err(e) => Err(e),
            },
            Optimizer::GeneticAlgorithm(options) => match GeneticAlgorithm::new(len_x, options) {
                Ok(ga) => if has_bounds {
                    Ok(ConcreteOptimizer::GeneticAlgorithm(ga))
                } else {
                    Err(OptError::MissingBounds)
                },
                Err(e) => Err(e),
            },
        }
    }
}

} // verus!
