//! The control of the Nelder–Mead simplex search: its coefficients, its
//! iteration budget, and the decision which move follows which comparison.
//!
//! Objective values enter as order keys. The driver holds the simplex; it
//! performs each action the search asks for and reports back what came of it.

use crate::key::FOUR_THOUSANDTH;
use crate::key::HALF;
use crate::key::ONE;
use crate::key::TEN_THOUSANDTH;
use crate::key::THREE_QUARTERS;
use crate::key::TWENTIETH;
use crate::key::TWO;
use crate::key::ZERO;
use crate::optimizer::OptError;
use crate::optimizer::OptOptions;
use vstd::prelude::*;

verus! {

/// A coefficient of the search: the number `base + num / den`, to be
/// computed in that order. `base` is an order key.
#[derive(Clone, Copy, Debug, PartialEq, Eq, Structural)]
pub struct Coefficient {
    pub base: i64,
    pub num: i128,
    pub den: i128,
}

/// The settings of a simplex search over `len_x` parameters.
#[derive(Clone, Copy, Debug)]
pub struct NelderMead {
    pub max_iter: u64,
    /// Reflection coefficient.
    pub rho: Coefficient,
    /// Expansion coefficient.
    pub chi: Coefficient,
    /// Contraction coefficient.
    pub psi: Coefficient,
    /// Shrink coefficient.
    pub sigma: Coefficient,
    /// The relative step by which a non-zero coordinate of the start is moved
    /// to build the initial simplex, as an order key.
    pub nonzero_delta: i64,
    /// The value that replaces a zero coordinate of the start, as an order key.
    pub zero_delta: i64,
    pub len_x: usize,
    /// The tolerance on the coordinates, as an order key.
    pub x_abstol: i64,
    /// The tolerance on the objective, as an order key.
    pub f_abstol: i64,
    pub verbose: bool,
}

/// The iteration budget that `max_iter` stands for: itself, or 200 per
/// parameter where it is zero, capped at the largest count.
pub open spec fn iteration_budget(max_iter: u64, len_x: usize) -> u64 {
    if max_iter != 0 {
        max_iter
    } else if len_x * 200 <= u64::MAX {
        (len_x * 200) as u64
    } else {
        u64::MAX
    }
}

/// The four coefficients `(rho, chi, psi, sigma)` for `n` parameters:
/// `(1, 1 + 2/n, 0.75 - 1/(2n), 1 - 1/n)` in the adaptive variant and
/// `(1, 2, 0.5, 0.5)` in the classical one.
pub open spec fn coefficients(adaptive: bool, n: usize) -> (Coefficient, Coefficient, Coefficient, Coefficient) {
    if adaptive {
        (
            Coefficient { base: ONE, num: 0, den: 1 },
            Coefficient { base: ONE, num: 2, den: n as i128 },
            Coefficient { base: THREE_QUARTERS, num: -1i128, den: (2 * n) as i128 },
            Coefficient { base: ONE, num: -1i128, den: n as i128 },
        )
    } else {
        (
            Coefficient { base: ONE, num: 0, den: 1 },
            Coefficient { base: TWO, num: 0, den: 1 },
            Coefficient { base: HALF, num: 0, den: 1 },
            Coefficient { base: HALF, num: 0, den: 1 },
        )
    }
}

impl NelderMead {
    /// What `new` returns.
    pub open spec fn spec_new(len_x: usize, options: OptOptions) -> Result<NelderMead, OptError> {
        match options {
            OptOptions::GeneticAlgorithm { .. } => Err(OptError::InvalidOptions),
            _ => {
                let (max_iter, adaptive, x_abstol, f_abstol, verbose) = match options {
                    OptOptions::NelderMead { max_iter, adaptive, x_abstol, f_abstol, verbose } => (
                        max_iter,
                        adaptive,
                        x_abstol,
                        f_abstol,
                        verbose,
                    ),
                    _ => (0u64, true, TEN_THOUSANDTH, TEN_THOUSANDTH, false),
                };
                let c = coefficients(adaptive, len_x);
                Ok(
                    NelderMead {
                        max_iter: iteration_budget(max_iter, len_x),
                        rho: c.0,
                        chi: c.1,
                        psi: c.2,
                        sigma: c.3,
                        nonzero_delta: TWENTIETH,
                        zero_delta: FOUR_THOUSANDTH,
                        len_x,
                        x_abstol,
                        f_abstol,
                        verbose,
                    },
                )
            },
        }
    }

    /// The settings for `len_x` parameters. The default options are an
    /// adaptive search with both tolerances at `0.0001` and the budget of 200
    /// iterations per parameter. A non-zero coordinate of the start is moved
    /// by `0.05` of itself to build the initial simplex, and a zero one is
    /// replaced by `0.00025`.
    ///
    /// Fails exactly when the options are those of the genetic algorithm.
    pub fn new(len_x: usize, options: &OptOptions) -> (r: Result<NelderMead, OptError>)
        ensures
            r == Self::spec_new(len_x, *options),
    {
        let (max_iter, adaptive, x_abstol, f_abstol, verbose) = match options {
            OptOptions::Default => (0u64, true, TEN_THOUSANDTH, TEN_THOUSANDTH, false),
            OptOptions::NelderMead { max_iter, adaptive, x_abstol, f_abstol, verbose } => (
                *max_iter,
                *adaptive,
                *x_abstol,
                *f_abstol,
                *verbose,
            ),
            OptOptions::GeneticAlgorithm { .. } => {
                return Err(OptError::InvalidOptions);
            },
        };
        let n: i128 = len_x as i128;
        let one = Coefficient { base: ONE, num: 0, den: 1 };
        let (rho, chi, psi, sigma) = if adaptive {
            (
                one,
                Coefficient { base: ONE, num: 2, den: n },
                Coefficient { base: THREE_QUARTERS, num: -1, den: 2 * n },
                Coefficient { base: ONE, num: -1, den: n },
            )
        } else {
            (
                one,
                Coefficient { base: TWO, num: 0, den: 1 },
                Coefficient { base: HALF, num: 0, den: 1 },
                Coefficient { base: HALF, num: 0, den: 1 },
            )
        };
        let budget: u64 = if max_iter != 0 {
            max_iter
        } else {
            let wide: u128 = (len_x as u128) * 200;
            if wide <= u64::MAX as u128 {
                wide as u64
            } else {
                u64::MAX
            }
        };
        Ok(
            NelderMead {
                max_iter: budget,
                rho,
                chi,
                psi,
                sigma,
                nonzero_delta: TWENTIETH,
                zero_delta: FOUR_THOUSANDTH,
                len_x,
                x_abstol,
                f_abstol,
                verbose,
            },
        )
    }

    /// The point the search starts from: the present values of the optimised
    /// parameters, read from the model's parameters `p` at the positions
    /// `x_index`.
    pub fn make_initial_x<V: Copy>(&self, x_index: &Vec<usize>, p: &Vec<V>) -> (x: Vec<V>)
        requires
            forall|i: int| 0 <= i < x_index.len() ==> x_index[i] < p.len(),
        ensures
            x.len() == x_index.len(),
            forall|i: int| 0 <= i < x.len() ==> x[i] == p[x_index[i] as int],
    {
        let mut x: Vec<V> = Vec::new();
        let mut i: usize = 0;
        while i < x_index.len()
            invariant
                i <= x_index.len(),
                x.len() == i,
                forall|j: int| 0 <= j < x_index.len() ==> x_index[j] < p.len(),
                forall|j: int| 0 <= j < i ==> x[j] == p[x_index[j] as int],
            decreases x_index.len() - i,
        {
            x.push(p[x_index[i]]);
            i += 1;
        }
        x
    }

    /// A search that has used none of its budget and waits for the initial
    /// simplex to be ranked.
    pub fn start(&self) -> (s: SimplexSearch)
        ensures
            s == (SimplexSearch {
                max_iter: self.max_iter,
                iter: 0,
                phase: SearchPhase::Ranking,
                f_best: 0,
                f_second_worst: 0,
                f_worst: 0,
                f_reflect: 0,
            }),
            s.wf(),
    {
        SimplexSearch {
            max_iter: self.max_iter,
            iter: 0,
            phase: SearchPhase::Ranking,
            f_best: 0,
            f_second_worst: 0,
            f_worst: 0,
            f_reflect: 0,
        }
    }
}

/// A trial point of one iteration.
#[derive(Clone, Copy, Debug, PartialEq, Eq, Structural)]
pub enum Candidate {
    /// The worst vertex mirrored at the centroid of the others.
    Reflection,
    /// A step beyond the reflection.
    Expansion,
    /// A point between the centroid and the reflection.
    OutsideContraction,
    /// A point between the centroid and the worst vertex.
    InsideContraction,
}

/// What the driver is to do next.
#[derive(Clone, Copy, Debug, PartialEq, Eq, Structural)]
pub enum SearchAction {
    /// Sort the vertices ascending by objective and test for convergence.
    Rank,
    /// Build the trial point and evaluate the objective there.
    Evaluate(Candidate),
    /// Put the trial point in the place of the worst vertex.
    ReplaceWorst(Candidate),
    /// Pull every vertex but the best towards the best, and re-evaluate them.
    Shrink,
    /// Report the best vertex of the ranked simplex.
    Finish,
}

/// What the driver reports back.
#[derive(Clone, Copy, Debug, PartialEq, Eq, Structural)]
pub enum SearchEvent {
    /// The simplex is ranked: the objective at the best, the second worst
    /// and the worst vertex, and whether the simplex has converged.
    Ranked { f_best: i64, f_second_worst: i64, f_worst: i64, converged: bool },
    /// The objective at the trial point that was asked for.
    Evaluated { f: i64 },
    /// The replacement or the shrink is done.
    Applied,
}

/// What the search waits for.
#[derive(Clone, Copy, Debug, PartialEq, Eq, Structural)]
pub enum SearchPhase {
    Ranking,
    Evaluating(Candidate),
    Applying,
    Finished,
}

/// Which move follows a reflection.
#[derive(Clone, Copy, Debug, PartialEq, Eq, Structural)]
pub enum ReflectionCase {
    /// Between the best and the second worst: the reflection is taken.
    Accept,
    /// Better than the best: an expansion is tried.
    Expand,
    /// Between the second worst and the worst: an outside contraction is tried.
    ContractOutside,
    /// No better than the worst: an inside contraction is tried.
    ContractInside,
}

/// The move that follows a reflection of value `f_reflect`.
pub open spec fn spec_classify_reflection(f_best: i64, f_second_worst: i64, f_worst: i64, f_reflect: i64) -> ReflectionCase {
    if f_best <= f_reflect && f_reflect < f_second_worst {
        ReflectionCase::Accept
    } else if f_reflect < f_best {
        ReflectionCase::Expand
    } else if f_second_worst <= f_reflect && f_reflect < f_worst {
        ReflectionCase::ContractOutside
    } else {
        ReflectionCase::ContractInside
    }
}

/// Decides which move follows a reflection of value `f_reflect`.
pub fn classify_reflection(f_best: i64, f_second_worst: i64, f_worst: i64, f_reflect: i64) -> (r: ReflectionCase)
    ensures
        r == spec_classify_reflection(f_best, f_second_worst, f_worst, f_reflect),
{
    if f_best <= f_reflect && f_reflect < f_second_worst {
        ReflectionCase::Accept
    } else if f_reflect < f_best {
        ReflectionCase::Expand
    } else if f_second_worst <= f_reflect && f_reflect < f_worst {
        ReflectionCase::ContractOutside
    } else {
        ReflectionCase::ContractInside
    }
}

/// The simplex has converged: no distance from the best vertex, neither in
/// the objective nor in any coordinate, exceeds its tolerance. A negative
/// tolerance is never met.
pub open spec fn spec_is_converged(f_difs: Seq<i64>, x_difs: Seq<i64>, f_abstol: i64, x_abstol: i64) -> bool {
    &&& ZERO <= f_abstol
    &&& ZERO <= x_abstol
    &&& forall|i: int| 0 <= i < f_difs.len() ==> f_difs[i] <= f_abstol
    &&& forall|i: int| 0 <= i < x_difs.len() ==> x_difs[i] <= x_abstol
}

/// The largest of `start` and the entries of `keys`.
fn largest_from(start: i64, keys: &Vec<i64>) -> (m: i64)
    ensures
        start <= m,
        forall|i: int| 0 <= i < keys.len() ==> keys[i] <= m,
        m == start || keys@.contains(m),
{
    let mut m: i64 = start;
    let mut i: usize = 0;
    while i < keys.len()
        invariant
            i <= keys.len(),
            start <= m,
            forall|j: int| 0 <= j < i ==> keys[j] <= m,
            m == start || keys@.contains(m),
        decreases keys.len() - i,
    {
        if keys[i] > m {
            m = keys[i];
        }
        i += 1;
    }
    m
}

/// Tests a ranked simplex for convergence.
///
/// `f_difs` holds, for every vertex but the best, the absolute difference of
/// its objective from the best; `x_difs` the absolute differences of its
/// coordinates from those of the best. All arguments are order keys.
pub fn is_converged(f_difs: &Vec<i64>, x_difs: &Vec<i64>, f_abstol: i64, x_abstol: i64) -> (r: bool)
    ensures
        r == spec_is_converged(f_difs@, x_difs@, f_abstol, x_abstol),
{
    let max_f_dif = largest_from(ZERO, f_difs);
    let max_x_dif = largest_from(ZERO, x_difs);
    proof {
        if max_f_dif != ZERO {
            let k = choose|k: int| 0 <= k < f_difs.len() && f_difs[k] == max_f_dif;
            assert(f_difs[k] == max_f_dif);
        }
        if max_x_dif != ZERO {
            let k = choose|k: int| 0 <= k < x_difs.len() && x_difs[k] == max_x_dif;
            assert(x_difs[k] == max_x_dif);
        }
    }
    max_x_dif <= x_abstol && max_f_dif <= f_abstol
}

/// The state of a running search.
#[derive(Clone, Copy, Debug, PartialEq, Eq, Structural)]
pub struct SimplexSearch {
    pub max_iter: u64,
    /// The iterations begun so far.
    pub iter: u64,
    pub phase: SearchPhase,
    /// The objective at the best vertex, as last ranked.
    pub f_best: i64,
    /// The objective at the second worst vertex, as last ranked.
    pub f_second_worst: i64,
    /// The objective at the worst vertex, as last ranked.
    pub f_worst: i64,
    /// The objective at the reflection of this iteration.
    pub f_reflect: i64,
}

impl SimplexSearch {
    /// The budget is respected, and a contraction or expansion is only ever
    /// tried after the reflection that calls for it.
    pub open spec fn wf(self) -> bool {
        &&& self.iter <= self.max_iter
        &&& self.phase == SearchPhase::Evaluating(Candidate::Expansion) ==> self.f_reflect < self.f_best
        &&& self.phase == SearchPhase::Evaluating(Candidate::OutsideContraction) ==> self.f_second_worst <= self.f_reflect < self.f_worst
        &&& self.phase == SearchPhase::Evaluating(Candidate::InsideContraction) ==> self.f_worst <= self.f_reflect
    }

    /// The state and the action that follow `event`; `None` where the search
    /// does not wait for that kind of event.
    pub open spec fn spec_step(self, event: SearchEvent) -> Option<(SimplexSearch, SearchAction)> {
        match (self.phase, event) {
            (SearchPhase::Ranking, SearchEvent::Ranked { f_best, f_second_worst, f_worst, converged }) => {
                if converged || self.iter >= self.max_iter {
                    Some((SimplexSearch { phase: SearchPhase::Finished, f_best, f_second_worst, f_worst, ..self }, SearchAction::Finish))
                } else {
                    Some(
                        (
                            SimplexSearch {
                                iter: (self.iter + 1) as u64,
                                phase: SearchPhase::Evaluating(Candidate::Reflection),
                                f_best,
                                f_second_worst,
                                f_worst,
                                ..self
                            },
                            SearchAction::Evaluate(Candidate::Reflection),
                        ),
                    )
                }
            },
            (SearchPhase::Evaluating(Candidate::Reflection), SearchEvent::Evaluated { f }) => {
                let next = SimplexSearch { f_reflect: f, ..self };
                match spec_classify_reflection(self.f_best, self.f_second_worst, self.f_worst, f) {
                    ReflectionCase::Accept => Some((SimplexSearch { phase: SearchPhase::Applying, ..next }, SearchAction::ReplaceWorst(Candidate::Reflection))),
                    ReflectionCase::Expand => Some((SimplexSearch { phase: SearchPhase::Evaluating(Candidate::Expansion), ..next }, SearchAction::Evaluate(Candidate::Expansion))),
                    ReflectionCase::ContractOutside => Some((SimplexSearch { phase: SearchPhase::Evaluating(Candidate::OutsideContraction), ..next }, SearchAction::Evaluate(Candidate::OutsideContraction))),
                    ReflectionCase::ContractInside => Some((SimplexSearch { phase: SearchPhase::Evaluating(Candidate::InsideContraction), ..next }, SearchAction::Evaluate(Candidate::InsideContraction))),
                }
            },
            (SearchPhase::Evaluating(Candidate::Expansion), SearchEvent::Evaluated { f }) => {
                let next = SimplexSearch { phase: SearchPhase::Applying, ..self };
                if f < self.f_reflect {
                    Some((next, SearchAction::ReplaceWorst(Candidate::Expansion)))
                } else {
                    Some((next, SearchAction::ReplaceWorst(Candidate::Reflection)))
                }
            },
            (SearchPhase::Evaluating(Candidate::OutsideContraction), SearchEvent::Evaluated { f }) => {
                let next = SimplexSearch { phase: SearchPhase::Applying, ..self };
                if f <= self.f_reflect {
                    Some((next, SearchAction::ReplaceWorst(Candidate::OutsideContraction)))
                } else {
                    Some((next, SearchAction::Shrink))
                }
            },
            (SearchPhase::Evaluating(Candidate::InsideContraction), SearchEvent::Evaluated { f }) => {
                let next = SimplexSearch { phase: SearchPhase::Applying, ..self };
                if f < self.f_worst {
                    Some((next, SearchAction::ReplaceWorst(Candidate::InsideContraction)))
                } else {
                    Some((next, SearchAction::Shrink))
                }
            },
            (SearchPhase::Applying, SearchEvent::Applied) => Some((SimplexSearch { phase: SearchPhase::Ranking, ..self }, SearchAction::Rank)),
            _ => None,
        }
    }

    /// The objective at the point that `action` puts in the place of the
    /// worst vertex, when `action` follows the evaluation `f`.
    pub open spec fn replacement_value(self, f: i64, action: SearchAction) -> i64 {
        match (self.phase, action) {
            (SearchPhase::Evaluating(Candidate::Expansion), SearchAction::ReplaceWorst(Candidate::Reflection)) => self.f_reflect,
            _ => f,
        }
    }

    /// Takes what the driver reports and says what it is to do next.
    ///
    /// Returns `None`, and leaves the search as it is, exactly when it does
    /// not wait for that kind of event.
    pub fn step(&mut self, event: SearchEvent) -> (r: Option<SearchAction>)
        requires
            old(self).wf(),
        ensures
            final(self).wf(),
            match old(self).spec_step(event) {
                Some((next, action)) => *final(self) == next && r == Some(action),
                None => *final(self) == *old(self) && r.is_none(),
            },
    {
        match (self.phase, event) {
            (SearchPhase::Ranking, SearchEvent::Ranked { f_best, f_second_worst, f_worst, converged }) => {
                self.f_best = f_best;
                self.f_second_worst = f_second_worst;
                self.f_worst = f_worst;
                if converged || self.iter >= self.max_iter {
                    self.phase = SearchPhase::Finished;
                    Some(SearchAction::Finish)
                } else {
                    self.iter = self.iter + 1;
                    self.phase = SearchPhase::Evaluating(Candidate::Reflection);
                    Some(SearchAction::Evaluate(Candidate::Reflection))
                }
            },
            (SearchPhase::Evaluating(Candidate::Reflection), SearchEvent::Evaluated { f }) => {
                self.f_reflect = f;
                match classify_reflection(self.f_best, self.f_second_worst, self.f_worst, f) {
                    ReflectionCase::Accept => {
                        self.phase = SearchPhase::Applying;
                        Some(SearchAction::ReplaceWorst(Candidate::Reflection))
                    },
                    ReflectionCase::Expand => {
                        self.phase = SearchPhase::Evaluating(Candidate::Expansion);
                        Some(SearchAction::Evaluate(Candidate::Expansion))
                    },
                    ReflectionCase::ContractOutside => {
                        self.phase = SearchPhase::Evaluating(Candidate::OutsideContraction);
                        Some(SearchAction::Evaluate(Candidate::OutsideContraction))
                    },
                    ReflectionCase::ContractInside => {
                        self.phase = SearchPhase::Evaluating(Candidate::InsideContraction);
                        Some(SearchAction::Evaluate(Candidate::InsideContraction))
                    },
                }
            },
            (SearchPhase::Evaluating(Candidate::Expansion), SearchEvent::Evaluated { f }) => {
                self.phase = SearchPhase::Applying;
                if f < self.f_reflect {
                    Some(SearchAction::ReplaceWorst(Candidate::Expansion))
                } else {
                    Some(SearchAction::ReplaceWorst(Candidate::Reflection))
                }
            },
            (SearchPhase::Evaluating(Candidate::OutsideContraction), SearchEvent::Evaluated { f }) => {
                self.phase = SearchPhase::Applying;
                if f <= self.f_reflect {
                    Some(SearchAction::ReplaceWorst(Candidate::OutsideContraction))
                } else {
                    Some(SearchAction::Shrink)
                }
            },
            (SearchPhase::Evaluating(Candidate::InsideContraction), SearchEvent::Evaluated { f }) => {
                self.phase = SearchPhase::Applying;
                if f < self.f_worst {
                    Some(SearchAction::ReplaceWorst(Candidate::InsideContraction))
                } else {
                    Some(SearchAction::Shrink)
                }
            },
            (SearchPhase::Applying, SearchEvent::Applied) => {
                self.phase = SearchPhase::Ranking;
                Some(SearchAction::Rank)
            },
            _ => None,
        }
    }

    /// Whatever point takes the place of the worst vertex has a smaller
    /// objective than the worst vertex had, so the best objective of the
    /// simplex never rises.
    pub proof fn lemma_replacement_improves(self, f: i64)
        requires
            self.wf(),
            self.f_best <= self.f_second_worst <= self.f_worst,
            self.spec_step(SearchEvent::Evaluated { f }) matches Some((_, SearchAction::ReplaceWorst(_))),
        ensures
            self.replacement_value(f, self.spec_step(SearchEvent::Evaluated { f }).unwrap().1) < self.f_worst,
    {
    }

    /// A search never begins more iterations than its budget allows, and
    /// every ranking either ends it or begins exactly one.
    pub proof fn lemma_budget_respected(self, event: SearchEvent)
        requires
            self.wf(),
            self.spec_step(event).is_some(),
        ensures
            self.spec_step(event).unwrap().0.iter <= self.max_iter,
            self.spec_step(event).unwrap().0.max_iter == self.max_iter,
            self.iter <= self.spec_step(event).unwrap().0.iter <= self.iter + 1,
            self.phase == SearchPhase::Ranking && self.iter == self.max_iter ==> self.spec_step(event).unwrap().1 == SearchAction::Finish,
    {
    }
}

} // verus!
