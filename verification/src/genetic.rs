//! The bookkeeping of the genetic algorithm: its settings, which individuals
//! are evaluated, which are carried over, and how a child takes its genes.
//!
//! Fitness values and genes that are compared enter as order keys; genes that
//! are only moved keep whatever type the driver gives them.

use crate::key::clip;
use crate::key::spec_clip;
use crate::key::FOUR_FIFTHS;
use crate::optimizer::OptError;
use crate::optimizer::OptOptions;
use rand::rngs::ThreadRng;
use rand::Rng;
use vstd::prelude::*;

verus! {

/// `rand`'s per-thread generator. Nothing is known of what it holds.
#[verifier::external_type_specification]
#[verifier::external_body]
pub struct ExThreadRng(ThreadRng);

/// The key of a fitness that is not known yet. It ranks after every other.
pub const UNKNOWN_FITNESS: i64 = i64::MAX;

/// The settings of a genetic search over `len_x` parameters.
#[derive(Clone, Copy, Debug)]
pub struct GeneticAlgorithm {
    pub max_gen: u64,
    pub n_pop: usize,
    /// How many of the best individuals pass unchanged into the next
    /// generation.
    pub n_elite: usize,
    /// The probability that a gene is mutated, as an order key.
    pub mutation_rate: i64,
    pub len_x: usize,
    pub verbose: bool,
}

/// What becomes of a place in the next generation.
#[derive(Clone, Copy, Debug, PartialEq, Eq, Structural)]
pub enum Place {
    /// The best individual: carried over as it is.
    Best,
    /// One of the other elite: carried over with its fitness, then mutated.
    Elite,
    /// A child of two parents drawn from this generation, then mutated.
    Child,
    /// Beyond the population.
    Outside,
}

/// A tenth of the population, and at least one.
pub open spec fn elite_count(n_pop: usize) -> usize {
    if n_pop / 10 == 0 {
        1
    } else {
        n_pop / 10
    }
}

/// The smallest entry of a non-empty list of fitness keys.
pub open spec fn best_fitness(f: Seq<i64>) -> i64
    recommends
        f.len() > 0,
    decreases f.len(),
{
    if f.len() <= 1 {
        f[0]
    } else {
        let b = best_fitness(f.drop_last());
        if f.last() < b {
            f.last()
        } else {
            b
        }
    }
}

/// The best fitness is an entry, and no entry is below it.
pub proof fn lemma_best_fitness_is_minimum(f: Seq<i64>)
    requires
        f.len() > 0,
    ensures
        f.contains(best_fitness(f)),
        forall|i: int| 0 <= i < f.len() ==> best_fitness(f) <= #[trigger] f[i],
    decreases f.len(),
{
    if f.len() == 1 {
        assert(f[0] == best_fitness(f));
    } else {
        let p = f.drop_last();
        lemma_best_fitness_is_minimum(p);
        let k = choose|k: int| 0 <= k < p.len() && p[k] == best_fitness(p);
        assert(f[k] == p[k]);
        assert(f[f.len() - 1] == f.last());
        assert forall|i: int| 0 <= i < f.len() implies best_fitness(f) <= #[trigger] f[i] by {
            if i < p.len() {
                assert(p[i] == f[i]);
            }
        }
    }
}

/// The child of two parents, gene by gene: from the first parent where the
/// draw is even, from the second where it is odd.
pub open spec fn spec_crossover<G>(parent1: Seq<G>, parent2: Seq<G>, draws: Seq<isize>) -> Seq<G> {
    Seq::new(draws.len(), |i: int| if draws[i] % 2 == 0 { parent1[i] } else { parent2[i] })
}

/// Mutates the genes of one individual: where `mutated` says so, the gene is
/// replaced by the entry of `scaled`, which is the gene times a random
/// factor, brought into the gene's bounds. All but `mutated` are order keys.
pub fn mutate(genes: &Vec<i64>, mutated: &Vec<bool>, scaled: &Vec<i64>, lo: &Vec<i64>, hi: &Vec<i64>) -> (r: Vec<i64>)
    requires
        genes.len() <= mutated.len(),
        genes.len() <= scaled.len(),
        genes.len() <= lo.len(),
        genes.len() <= hi.len(),
    ensures
        r@ == spec_mutate(genes@, mutated@, scaled@, lo@, hi@),
{
    let mut r: Vec<i64> = Vec::new();
    let mut j: usize = 0;
    while j < genes.len()
        invariant
            j <= genes.len(),
            genes.len() <= mutated.len(),
            genes.len() <= scaled.len(),
            genes.len() <= lo.len(),
            genes.len() <= hi.len(),
            r.len() == j,
            forall|k: int| 0 <= k < j ==> r[k] == (if mutated[k] { spec_clip(scaled[k], lo[k], hi[k]) } else { genes[k] }),
        decreases genes.len() - j,
    {
        if mutated[j] {
            r.push(clip(scaled[j], lo[j], hi[j]));
        } else {
            r.push(genes[j]);
        }
        j += 1;
    }
    assert(r@ =~= spec_mutate(genes@, mutated@, scaled@, lo@, hi@));
    r
}

/// `rand::Rng::gen_range` on the range `0..=100`, drawn from the thread's
/// generator. Claims only that the number lies in that range.
#[verifier::external_body]
fn draw_percent(rng: &mut ThreadRng) -> (r: isize)
    ensures
        0 <= r <= 100,
{
    rng.gen_range(0..=100)
}

/// The child whose genes are picked by `draws`, one draw per gene.
pub fn crossover_from_draws<G: Copy>(parent1: &Vec<G>, parent2: &Vec<G>, draws: &Vec<isize>) -> (child: Vec<G>)
    requires
        draws.len() <= parent1.len(),
        draws.len() <= parent2.len(),
    ensures
        child@ == spec_crossover(parent1@, parent2@, draws@),
{
    let mut child: Vec<G> = Vec::new();
    let mut i: usize = 0;
    while i < draws.len()
        invariant
            i <= draws.len(),
            draws.len() <= parent1.len(),
            draws.len() <= parent2.len(),
            child.len() == i,
            forall|j: int| 0 <= j < i ==> child[j] == (if draws[j] % 2 == 0 { parent1[j] } else { parent2[j] }),
        decreases draws.len() - i,
    {
        if draws[i] % 2 == 0 {
            child.push(parent1[i]);
        } else {
            child.push(parent2[i]);
        }
        i += 1;
    }
    assert(child@ =~= spec_crossover(parent1@, parent2@, draws@));
    child
}

impl GeneticAlgorithm {
    /// What `new` returns.
    pub open spec fn spec_new(len_x: usize, options: OptOptions) -> Result<GeneticAlgorithm, OptError> {
        match options {
            OptOptions::NelderMead { .. } => Err(OptError::InvalidOptions),
            OptOptions::GeneticAlgorithm { max_gen, n_pop, mutation_rate, verbose } => Ok(
                GeneticAlgorithm { max_gen, n_pop, n_elite: elite_count(n_pop), mutation_rate, len_x, verbose },
            ),
            OptOptions::Default => Ok(
                GeneticAlgorithm {
                    max_gen: 100,
                    n_pop: 10,
                    n_elite: 1,
                    mutation_rate: FOUR_FIFTHS,
                    len_x,
                    verbose: false,
                },
            ),
        }
    }

    /// The settings for `len_x` parameters. The default options are 100
    /// generations of 10 individuals with a mutation rate of `0.8`.
    ///
    /// Fails exactly when the options are those of the simplex search.
    pub fn new(len_x: usize, options: &OptOptions) -> (r: Result<GeneticAlgorithm, OptError>)
        ensures
            r == Self::spec_new(len_x, *options),
    {
        let (max_gen, n_pop, mutation_rate, verbose) = match options {
            OptOptions::Default => (100u64, 10usize, FOUR_FIFTHS, false),
            OptOptions::GeneticAlgorithm { max_gen, n_pop, mutation_rate, verbose } => (
                *max_gen,
                *n_pop,
                *mutation_rate,
                *verbose,
            ),
            OptOptions::NelderMead { .. } => {
                return Err(OptError::InvalidOptions);
            },
        };
        let n_elite: usize = if n_pop / 10 == 0 { 1 } else { n_pop / 10 };
        Ok(GeneticAlgorithm { max_gen, n_pop, n_elite, mutation_rate, len_x, verbose })
    }

    /// What becomes of place `i` of the next generation.
    pub open spec fn spec_place(self, i: usize) -> Place {
        if i >= self.n_pop {
            Place::Outside
        } else if i == 0 {
            Place::Best
        } else if i < self.n_elite {
            Place::Elite
        } else {
            Place::Child
        }
    }

    /// Says what becomes of place `i` of the next generation: the first
    /// `n_elite` places are carried over, the rest are filled with children,
    /// and all but the first are mutated.
    pub fn place(&self, i: usize) -> (r: Place)
        ensures
            r == self.spec_place(i),
    {
        if i >= self.n_pop {
            Place::Outside
        } else if i == 0 {
            Place::Best
        } else if i < self.n_elite {
            Place::Elite
        } else {
            Place::Child
        }
    }

    /// The fitness of the next generation before it is evaluated, from the
    /// ranked fitness of this one: that of the elite, and unknown for the
    /// children that fill the rest.
    pub open spec fn spec_carry_elites(self, ranked: Seq<i64>) -> Seq<i64> {
        Seq::new(ranked.len(), |i: int| if i < self.n_elite { ranked[i] } else { UNKNOWN_FITNESS })
    }

    /// Carries the fitness of the elite into the next generation and marks
    /// every other place as not evaluated.
    pub fn carry_elites(&self, ranked: &Vec<i64>) -> (next: Vec<i64>)
        ensures
            next@ == self.spec_carry_elites(ranked@),
    {
        let mut next: Vec<i64> = Vec::new();
        let mut i: usize = 0;
        while i < ranked.len()
            invariant
                i <= ranked.len(),
                next.len() == i,
                forall|j: int| 0 <= j < i ==> next[j] == (if j < self.n_elite { ranked[j] } else { UNKNOWN_FITNESS }),
            decreases ranked.len() - i,
        {
            if i < self.n_elite {
                next.push(ranked[i]);
            } else {
                next.push(UNKNOWN_FITNESS);
            }
            i += 1;
        }
        assert(next@ =~= self.spec_carry_elites(ranked@));
        next
    }

    /// A child of two parents: each of its `len_x` genes comes from one of
    /// them, picked by the parity of a fresh random draw.
    pub fn crossover<G: Copy>(&self, parent1: &Vec<G>, parent2: &Vec<G>, rng: &mut ThreadRng) -> (child: Vec<G>)
        requires
            self.len_x <= parent1.len(),
            self.len_x <= parent2.len(),
        ensures
            child.len() == self.len_x,
            forall|i: int| 0 <= i < self.len_x ==> child[i] == parent1[i] || child[i] == parent2[i],
            exists|draws: Seq<isize>| draws.len() == self.len_x && child@ == spec_crossover(parent1@, parent2@, draws),
    {
        let mut draws: Vec<isize> = Vec::new();
        let mut i: usize = 0;
        while i < self.len_x
            invariant
                i <= self.len_x,
                draws.len() == i,
            decreases self.len_x - i,
        {
            let d = draw_percent(rng);
            draws.push(d);
            i += 1;
        }
        crossover_from_draws(parent1, parent2, &draws)
    }
}

/// The places of a generation whose fitness is not known yet, ascending.
pub fn unevaluated(fitness: &Vec<i64>) -> (r: Vec<usize>)
    ensures
        forall|a: int, b: int| 0 <= a < b < r.len() ==> r[a] < r[b],
        forall|a: int| 0 <= a < r.len() ==> r[a] < fitness.len() && fitness[r[a] as int] == UNKNOWN_FITNESS,
        forall|i: usize| 0 <= i < fitness.len() && fitness[i as int] == UNKNOWN_FITNESS ==> #[trigger] r@.contains(i),
{
    let mut r: Vec<usize> = Vec::new();
    let mut i: usize = 0;
    while i < fitness.len()
        invariant
            i <= fitness.len(),
            forall|a: int, b: int| 0 <= a < b < r.len() ==> r[a] < r[b],
            forall|a: int| 0 <= a < r.len() ==> r[a] < i && fitness[r[a] as int] == UNKNOWN_FITNESS,
            forall|k: usize| 0 <= k < i && fitness[k as int] == UNKNOWN_FITNESS ==> #[trigger] r@.contains(k),
        decreases fitness.len() - i,
    {
        if fitness[i] == UNKNOWN_FITNESS {
            let ghost before = r@;
            r.push(i);
            proof {
                assert forall|k: usize| 0 <= k < i + 1 && fitness[k as int] == UNKNOWN_FITNESS implies #[trigger] r@.contains(k) by {
                    if k < i {
                        assert(before.contains(k));
                        let j = choose|j: int| 0 <= j < before.len() && before[j] == k;
                        assert(r@[j] == k);
                    } else {
                        assert(r@[r.len() - 1] == k);
                    }
                }
            }
        }
        i += 1;
    }
    r
}

/// Every gene lies within its bounds.
pub open spec fn within_bounds(genes: Seq<i64>, lo: Seq<i64>, hi: Seq<i64>) -> bool {
    &&& genes.len() <= lo.len()
    &&& genes.len() <= hi.len()
    &&& forall|j: int| 0 <= j < genes.len() ==> lo[j] <= #[trigger] genes[j] <= hi[j]
}

/// The genes after mutation: where `mutated` says so, the gene is replaced by
/// `scaled` brought into its bounds.
pub open spec fn spec_mutate(genes: Seq<i64>, mutated: Seq<bool>, scaled: Seq<i64>, lo: Seq<i64>, hi: Seq<i64>) -> Seq<i64> {
    Seq::new(genes.len(), |j: int| if mutated[j] { spec_clip(scaled[j], lo[j], hi[j]) } else { genes[j] })
}

/// The genes of the individual at place `i` of the next generation, built
/// from the ranked individuals of this one: carried over or crossed from the
/// parents at `parent_a` and `parent_b`, and mutated unless it is the best.
pub open spec fn spec_next_genes(
    ga: GeneticAlgorithm,
    i: usize,
    ranked: Seq<Seq<i64>>,
    parent_a: int,
    parent_b: int,
    draws: Seq<isize>,
    mutated: Seq<bool>,
    scaled: Seq<i64>,
    lo: Seq<i64>,
    hi: Seq<i64>,
) -> Seq<i64> {
    match ga.spec_place(i) {
        Place::Best => ranked[i as int],
        Place::Elite => spec_mutate(ranked[i as int], mutated, scaled, lo, hi),
        Place::Child => spec_mutate(spec_crossover(ranked[parent_a], ranked[parent_b], draws), mutated, scaled, lo, hi),
        Place::Outside => Seq::empty(),
    }
}

/// A child of parents whose genes lie within the bounds has its genes within
/// the bounds.
pub proof fn lemma_crossover_within_bounds(parent1: Seq<i64>, parent2: Seq<i64>, draws: Seq<isize>, lo: Seq<i64>, hi: Seq<i64>)
    requires
        within_bounds(parent1, lo, hi),
        within_bounds(parent2, lo, hi),
        draws.len() <= parent1.len(),
        draws.len() <= parent2.len(),
    ensures
        within_bounds(spec_crossover(parent1, parent2, draws), lo, hi),
{
    let child = spec_crossover(parent1, parent2, draws);
    assert forall|j: int| 0 <= j < child.len() implies lo[j] <= #[trigger] child[j] <= hi[j] by {
        if draws[j] % 2 == 0 {
            assert(child[j] == parent1[j]);
        } else {
            assert(child[j] == parent2[j]);
        }
    }
}

/// Bounds are respected from one generation to the next: if every gene of
/// this generation lies within its bounds, so does every gene of every
/// individual of the next, whatever is drawn.
pub proof fn lemma_bounds_respected(
    ga: GeneticAlgorithm,
    i: usize,
    ranked: Seq<Seq<i64>>,
    parent_a: int,
    parent_b: int,
    draws: Seq<isize>,
    mutated: Seq<bool>,
    scaled: Seq<i64>,
    lo: Seq<i64>,
    hi: Seq<i64>,
)
    requires
        ranked.len() == ga.n_pop,
        0 <= parent_a < ranked.len(),
        0 <= parent_b < ranked.len(),
        forall|k: int| 0 <= k < ranked.len() ==> within_bounds(#[trigger] ranked[k], lo, hi),
        forall|j: int| 0 <= j < lo.len() && j < hi.len() ==> lo[j] <= hi[j],
        draws.len() <= ranked[parent_a].len(),
        draws.len() <= ranked[parent_b].len(),
    ensures
        within_bounds(spec_next_genes(ga, i, ranked, parent_a, parent_b, draws, mutated, scaled, lo, hi), lo, hi),
{
    match ga.spec_place(i) {
        Place::Best => {},
        Place::Elite => {
            assert(within_bounds(ranked[i as int], lo, hi));
        },
        Place::Child => {
            lemma_crossover_within_bounds(ranked[parent_a], ranked[parent_b], draws, lo, hi);
        },
        Place::Outside => {},
    }
}

/// Elitism: however the children turn out, the best fitness of the next
/// generation is no worse than the best of this one.
///
/// `ranked` is this generation's fitness in ascending order, and `evaluated`
/// the next generation's after evaluation, which leaves every fitness that was
/// carried over as it is.
pub proof fn lemma_elitism(ga: GeneticAlgorithm, ranked: Seq<i64>, evaluated: Seq<i64>)
    requires
        ranked.len() > 0,
        ga.n_elite >= 1,
        forall|i: int, j: int| 0 <= i <= j < ranked.len() ==> ranked[i] <= ranked[j],
        evaluated.len() == ranked.len(),
        forall|i: int| 0 <= i < ranked.len() && ga.spec_carry_elites(ranked)[i] != UNKNOWN_FITNESS ==> evaluated[i] == ga.spec_carry_elites(ranked)[i],
    ensures
        best_fitness(evaluated) <= best_fitness(ranked),
{
    lemma_best_fitness_is_minimum(evaluated);
    lemma_best_fitness_is_minimum(ranked);
    assert(ga.spec_carry_elites(ranked)[0] == ranked[0]);
    assert(evaluated[0] <= ranked[0]);
    let k = choose|k: int| 0 <= k < ranked.len() && ranked[k] == best_fitness(ranked);
    assert(ranked[0] <= ranked[k]);
}

} // verus!
