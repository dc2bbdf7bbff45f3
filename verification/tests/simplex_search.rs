use aphreco::neldermead::classify_reflection;
use aphreco::neldermead::is_converged;
use aphreco::neldermead::Candidate;
use aphreco::neldermead::NelderMead;
use aphreco::neldermead::Coefficient;
use aphreco::neldermead::ReflectionCase;
use aphreco::neldermead::SearchAction;
use aphreco::neldermead::SearchEvent;
use aphreco::neldermead::SearchPhase;
use aphreco::optimizer::OptError;
use aphreco::optimizer::OptOptions;
use aphreco::order::stable_order;

fn fkey(x: f64) -> i64 {
    assert!(!x.is_nan());
    let bits = (x + 0.0).to_bits() as i64;
    if bits < 0 {
        bits ^ i64::MAX
    } else {
        bits
    }
}

fn unkey(k: i64) -> f64 {
    let bits = if k < 0 { k ^ i64::MAX } else { k };
    f64::from_bits(bits as u64)
}

fn value(c: Coefficient) -> f64 {
    unkey(c.base) + c.num as f64 / c.den as f64
}


#[test]
fn default_search_is_adaptive_with_two_hundred_iterations_per_parameter() {
    let nm = NelderMead::new(2, &OptOptions::Default).unwrap();
    assert_eq!(nm.max_iter, 400);
    assert_eq!(nm.len_x, 2);
    assert!(!nm.verbose);
    assert_eq!(nm.x_abstol, fkey(1e-4));
    assert_eq!(nm.f_abstol, fkey(1e-4));
    assert_eq!(nm.nonzero_delta, fkey(0.05));
    assert_eq!(nm.zero_delta, fkey(0.00025));
    assert_eq!(value(nm.rho), 1.0);
    assert_eq!(value(nm.chi), 2.0);
    assert_eq!(value(nm.psi), 0.5);
    assert_eq!(value(nm.sigma), 0.5);
}

#[test]
fn adaptive_coefficients_depend_on_the_dimension() {
    let nm = NelderMead::new(4, &OptOptions::Default).unwrap();
    assert_eq!(nm.rho, Coefficient { base: fkey(1.0), num: 0, den: 1 });
    assert_eq!(nm.chi, Coefficient { base: fkey(1.0), num: 2, den: 4 });
    assert_eq!(nm.psi, Coefficient { base: fkey(0.75), num: -1, den: 8 });
    assert_eq!(nm.sigma, Coefficient { base: fkey(1.0), num: -1, den: 4 });
    assert_eq!(value(nm.chi), 1.0 + 2.0 / 4.0);
    assert_eq!(value(nm.psi), 0.75 - 1.0 / 8.0);
    assert_eq!(value(nm.sigma), 1.0 - 1.0 / 4.0);
}

#[test]
fn adaptive_coefficients_agree_bit_for_bit_with_their_formulas() {
    for n in [1usize, 2, 3, 5, 7, 10, 11, 13, 49, 1000, 123_457] {
        let nm = NelderMead::new(n, &OptOptions::Default).unwrap();
        let len_x = n as f64;
        assert_eq!(value(nm.rho).to_bits(), 1.0f64.to_bits());
        assert_eq!(value(nm.chi).to_bits(), (1.0 + 2.0 / len_x).to_bits());
        assert_eq!(value(nm.psi).to_bits(), (0.75 - 1.0 / (2.0 * len_x)).to_bits());
        assert_eq!(value(nm.sigma).to_bits(), (1.0 - 1.0 / len_x).to_bits());
    }
}

#[test]
fn classical_coefficients_are_fixed() {
    let options = OptOptions::NelderMead { max_iter: 17, adaptive: false, x_abstol: fkey(0.01), f_abstol: fkey(0.5), verbose: true };
    let nm = NelderMead::new(9, &options).unwrap();
    assert_eq!(nm.max_iter, 17);
    assert_eq!(nm.rho, Coefficient { base: fkey(1.0), num: 0, den: 1 });
    assert_eq!(nm.chi, Coefficient { base: fkey(2.0), num: 0, den: 1 });
    assert_eq!(nm.psi, Coefficient { base: fkey(0.5), num: 0, den: 1 });
    assert_eq!(nm.sigma, Coefficient { base: fkey(0.5), num: 0, den: 1 });
    assert_eq!((value(nm.rho), value(nm.chi), value(nm.psi), value(nm.sigma)), (1.0, 2.0, 0.5, 0.5));
    assert_eq!(nm.x_abstol, fkey(0.01));
    assert_eq!(nm.f_abstol, fkey(0.5));
    assert!(nm.verbose);
}

#[test]
fn zero_budget_stands_for_two_hundred_per_parameter() {
    let options = OptOptions::NelderMead { max_iter: 0, adaptive: true, x_abstol: fkey(0.01), f_abstol: fkey(0.01), verbose: false };
    assert_eq!(NelderMead::new(3, &options).unwrap().max_iter, 600);
    assert_eq!(NelderMead::new(0, &options).unwrap().max_iter, 0);
    assert_eq!(NelderMead::new(usize::MAX, &options).unwrap().max_iter, u64::MAX);
}

#[test]
fn simplex_search_refuses_the_options_of_the_genetic_algorithm() {
    let options = OptOptions::GeneticAlgorithm { max_gen: 1, n_pop: 1, mutation_rate: fkey(0.5), verbose: false };
    assert!(matches!(NelderMead::new(2, &options), Err(OptError::InvalidOptions)));
}

#[test]
fn initial_point_is_read_from_the_parameters() {
    let nm = NelderMead::new(2, &OptOptions::Default).unwrap();
    let p = vec![0.2, 0.05, 0.0, 100000.0];
    assert_eq!(nm.make_initial_x(&vec![3, 0], &p), vec![100000.0, 0.2]);
    assert_eq!(nm.make_initial_x(&Vec::new(), &p), Vec::<f64>::new());
}

#[test]
fn reflection_is_classified_by_where_it_ranks() {
    assert_eq!(classify_reflection(10, 20, 30, 10), ReflectionCase::Accept);
    assert_eq!(classify_reflection(10, 20, 30, 19), ReflectionCase::Accept);
    assert_eq!(classify_reflection(10, 20, 30, 9), ReflectionCase::Expand);
    assert_eq!(classify_reflection(10, 20, 30, 20), ReflectionCase::ContractOutside);
    assert_eq!(classify_reflection(10, 20, 30, 29), ReflectionCase::ContractOutside);
    assert_eq!(classify_reflection(10, 20, 30, 30), ReflectionCase::ContractInside);
    assert_eq!(classify_reflection(10, 20, 30, 99), ReflectionCase::ContractInside);
}

#[test]
fn convergence_needs_both_tolerances_met() {
    assert!(is_converged(&vec![1, 2], &vec![3, 0, 1, 2], 2, 3));
    assert!(!is_converged(&vec![1, 3], &vec![3, 0, 1, 2], 2, 3));
    assert!(!is_converged(&vec![1, 2], &vec![4, 0, 1, 2], 2, 3));
    assert!(is_converged(&Vec::new(), &Vec::new(), 0, 0));
    assert!(!is_converged(&Vec::new(), &Vec::new(), -1, 5));
    assert!(!is_converged(&Vec::new(), &Vec::new(), 5, -1));
    assert!(is_converged(&vec![fkey(5e-5)], &vec![fkey(1e-4), fkey(0.0)], fkey(1e-4), fkey(1e-4)));
    assert!(!is_converged(&vec![fkey(5e-5)], &vec![fkey(1.1e-4)], fkey(1e-4), fkey(1e-4)));
    assert!(!is_converged(&Vec::new(), &Vec::new(), fkey(-1e-4), fkey(1e-4)));
}

fn ranked(converged: bool) -> SearchEvent {
    SearchEvent::Ranked { f_best: 10, f_second_worst: 20, f_worst: 30, converged }
}

#[test]
fn accepted_reflection_replaces_the_worst_vertex() {
    let mut s = NelderMead::new(2, &OptOptions::Default).unwrap().start();
    assert_eq!(s.step(ranked(false)), Some(SearchAction::Evaluate(Candidate::Reflection)));
    assert_eq!(s.iter, 1);
    assert_eq!(s.step(SearchEvent::Evaluated { f: 15 }), Some(SearchAction::ReplaceWorst(Candidate::Reflection)));
    assert_eq!(s.step(SearchEvent::Applied), Some(SearchAction::Rank));
    assert_eq!(s.phase, SearchPhase::Ranking);
}

#[test]
fn expansion_is_taken_only_if_it_beats_the_reflection() {
    let mut s = NelderMead::new(2, &OptOptions::Default).unwrap().start();
    s.step(ranked(false));
    assert_eq!(s.step(SearchEvent::Evaluated { f: 5 }), Some(SearchAction::Evaluate(Candidate::Expansion)));
    let mut other = s;
    assert_eq!(s.step(SearchEvent::Evaluated { f: 4 }), Some(SearchAction::ReplaceWorst(Candidate::Expansion)));
    assert_eq!(other.step(SearchEvent::Evaluated { f: 5 }), Some(SearchAction::ReplaceWorst(Candidate::Reflection)));
}

#[test]
fn failed_contraction_leads_to_a_shrink() {
    let mut s = NelderMead::new(2, &OptOptions::Default).unwrap().start();
    s.step(ranked(false));
    assert_eq!(s.step(SearchEvent::Evaluated { f: 25 }), Some(SearchAction::Evaluate(Candidate::OutsideContraction)));
    let mut other = s;
    assert_eq!(s.step(SearchEvent::Evaluated { f: 25 }), Some(SearchAction::ReplaceWorst(Candidate::OutsideContraction)));
    assert_eq!(other.step(SearchEvent::Evaluated { f: 26 }), Some(SearchAction::Shrink));
    assert_eq!(other.step(SearchEvent::Applied), Some(SearchAction::Rank));

    let mut s = NelderMead::new(2, &OptOptions::Default).unwrap().start();
    s.step(ranked(false));
    assert_eq!(s.step(SearchEvent::Evaluated { f: 30 }), Some(SearchAction::Evaluate(Candidate::InsideContraction)));
    let mut other = s;
    assert_eq!(s.step(SearchEvent::Evaluated { f: 29 }), Some(SearchAction::ReplaceWorst(Candidate::InsideContraction)));
    assert_eq!(other.step(SearchEvent::Evaluated { f: 30 }), Some(SearchAction::Shrink));
}

#[test]
fn search_ends_on_convergence_or_when_the_budget_is_spent() {
    let mut s = NelderMead::new(2, &OptOptions::Default).unwrap().start();
    assert_eq!(s.step(ranked(true)), Some(SearchAction::Finish));
    assert_eq!(s.phase, SearchPhase::Finished);
    assert_eq!(s.iter, 0);

    let options = OptOptions::NelderMead { max_iter: 2, adaptive: true, x_abstol: fkey(0.0), f_abstol: fkey(0.0), verbose: false };
    let mut s = NelderMead::new(2, &options).unwrap().start();
    for _ in 0..2 {
        assert_eq!(s.step(ranked(false)), Some(SearchAction::Evaluate(Candidate::Reflection)));
        s.step(SearchEvent::Evaluated { f: 15 });
        s.step(SearchEvent::Applied);
    }
    assert_eq!(s.step(ranked(false)), Some(SearchAction::Finish));
    assert_eq!(s.iter, 2);
}

#[test]
fn event_that_is_not_waited_for_changes_nothing() {
    let mut s = NelderMead::new(2, &OptOptions::Default).unwrap().start();
    let before = s;
    assert_eq!(s.step(SearchEvent::Applied), None);
    assert_eq!(s.step(SearchEvent::Evaluated { f: 1 }), None);
    assert_eq!(s, before);
    s.step(ranked(true));
    let finished = s;
    assert_eq!(s.step(ranked(false)), None);
    assert_eq!(s, finished);
}

/// Minimises `f` from `x0` with the library's control, and returns the best
/// vertex, its value, the iterations begun, and whether the budget was left
/// unspent.
fn minimise(f: &dyn Fn(&[f64]) -> f64, x0: &[f64], options: &OptOptions) -> (Vec<f64>, f64, u64, bool) {
    let n = x0.len();
    let nm = NelderMead::new(n, options).unwrap();
    let (rho, chi, psi, sigma) = (value(nm.rho), value(nm.chi), value(nm.psi), value(nm.sigma));
    let mut simplex: Vec<(f64, Vec<f64>)> = vec![(f(x0), x0.to_vec())];
    for k in 0..n {
        let mut x = x0.to_vec();
        if x[k] != 0.0 {
            x[k] = (1.0 + unkey(nm.nonzero_delta)) * x[k];
        } else {
            x[k] = unkey(nm.zero_delta);
        }
        simplex.push((f(&x), x));
    }
    let mut search = nm.start();
    let mut action = SearchAction::Rank;
    let mut trial: Vec<(f64, Vec<f64>)> = vec![(0.0, Vec::new()); 4];
    let slot = |c: Candidate| match c {
        Candidate::Reflection => 0,
        Candidate::Expansion => 1,
        Candidate::OutsideContraction => 2,
        Candidate::InsideContraction => 3,
    };
    loop {
        let event = match action {
            SearchAction::Rank => {
                let keys: Vec<i64> = simplex.iter().map(|v| fkey(v.0)).collect();
                let order = stable_order(&keys);
                simplex = order.iter().map(|&i| simplex[i].clone()).collect();
                let f_difs: Vec<i64> = simplex.iter().skip(1).map(|v| fkey((simplex[0].0 - v.0).abs())).collect();
                let x_difs: Vec<i64> = simplex
                    .iter()
                    .skip(1)
                    .flat_map(|v| v.1.iter().zip(simplex[0].1.iter()).map(|(a, b)| fkey((b - a).abs())).collect::<Vec<i64>>())
                    .collect();
                let converged = is_converged(&f_difs, &x_difs, nm.f_abstol, nm.x_abstol);
                SearchEvent::Ranked {
                    f_best: fkey(simplex[0].0),
                    f_second_worst: fkey(simplex[n - 1].0),
                    f_worst: fkey(simplex[n].0),
                    converged,
                }
            },
            SearchAction::Evaluate(c) => {
                let mut centroid = vec![0.0; n];
                for v in simplex.iter().take(n) {
                    for j in 0..n {
                        centroid[j] += v.1[j];
                    }
                }
                for j in 0..n {
                    centroid[j] /= n as f64;
                }
                let worst = &simplex[n].1;
                let x: Vec<f64> = (0..n)
                    .map(|j| match c {
                        Candidate::Reflection => rho * (centroid[j] - worst[j]) + centroid[j],
                        Candidate::Expansion => rho * chi * (centroid[j] - worst[j]),
                        Candidate::OutsideContraction => psi * rho * (centroid[j] - worst[j]) + centroid[j],
                        Candidate::InsideContraction => psi * (worst[j] - centroid[j]),
                    })
                    .collect();
                let fx = f(&x);
                trial[slot(c)] = (fx, x);
                SearchEvent::Evaluated { f: fkey(fx) }
            },
            SearchAction::ReplaceWorst(c) => {
                simplex[n] = trial[slot(c)].clone();
                SearchEvent::Applied
            },
            SearchAction::Shrink => {
                for i in 1..=n {
                    let x: Vec<f64> = (0..n).map(|j| simplex[0].1[j] + sigma * (simplex[i].1[j] - simplex[0].1[j])).collect();
                    simplex[i] = (f(&x), x);
                }
                SearchEvent::Applied
            },
            SearchAction::Finish => {
                let spare = search.iter < search.max_iter;
                return (simplex[0].1.clone(), simplex[0].0, search.iter, spare);
            },
        };
        action = search.step(event).unwrap();
    }
}

#[test]
fn search_finds_the_minimum_of_a_shifted_square_norm() {
    let a = [0.2, 0.05];
    let f = |x: &[f64]| x.iter().zip(a.iter()).map(|(xi, ai)| (xi - ai) * (xi - ai)).sum::<f64>();
    let options = OptOptions::NelderMead { max_iter: 0, adaptive: true, x_abstol: fkey(0.000001), f_abstol: fkey(0.000001), verbose: false };
    let (x, fx, iter, spare) = minimise(&f, &[0.1, 0.1], &options);
    assert!(spare, "the budget of {} iterations was spent", iter);
    assert!(fx < 1e-6);
    assert!((x[0] - 0.2).abs() < 1e-3);
    assert!((x[1] - 0.05).abs() < 1e-3);
}

#[test]
fn search_in_one_dimension_converges() {
    let f = |x: &[f64]| (x[0] - 3.0) * (x[0] - 3.0);
    let options = OptOptions::NelderMead { max_iter: 0, adaptive: false, x_abstol: fkey(0.0001), f_abstol: fkey(0.0001), verbose: false };
    let (x, fx, _, spare) = minimise(&f, &[1.0], &options);
    assert!(spare);
    assert!(fx < 1e-4);
    assert!((x[0] - 3.0).abs() < 1e-2);
}

#[test]
fn best_value_never_rises_during_a_search() {
    let f = |x: &[f64]| (x[0] - 1.0).powi(2) + 10.0 * (x[1] + 2.0).powi(2) + (x[2] - 0.5).powi(2);
    let mut last = f64::INFINITY;
    for budget in 1..40u64 {
        let options = OptOptions::NelderMead { max_iter: budget, adaptive: true, x_abstol: fkey(0.0), f_abstol: fkey(0.0), verbose: false };
        let (_, fx, iter, _) = minimise(&f, &[0.0, 0.0, 0.0], &options);
        assert!(iter <= budget);
        assert!(fx <= last);
        last = fx;
    }
}
