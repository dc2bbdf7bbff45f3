//! The optimisation side of the two single-mode model kinds: purely
//! continuous models and purely recursive ones.

use vstd::prelude::*;

verus! {

/// A purely continuous model of `LEN_Y` states and `LEN_P` parameters that
/// exposes `LEN_X` of them to an optimiser.
pub trait OdeModelOptTrait<const LEN_Y: usize, const LEN_P: usize, const LEN_X: usize> {
    fn getx(&self);
}

/// A purely recursive model of `LEN_Y` states and `LEN_P` parameters that
/// exposes `LEN_X` of them to an optimiser.
pub trait RecModelOptTrait<const LEN_Y: usize, const LEN_P: usize, const LEN_X: usize> {
    fn getx(&self);
}

} // verus!
