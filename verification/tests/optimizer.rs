//! End-to-end tests of the search kernels against the closed-form model
//! oracle.

use concrete_optimizer::atomic_pattern::{
    optimize_one, OptimizationDecompositionsConsts, Solution,
};
use concrete_optimizer::dag::AnalyzedDag;
use concrete_optimizer::dag_optimize::{optimize, optimize_v0};
use concrete_optimizer::model::ModelOracle;
use concrete_optimizer::oracle::{Oracle, PROB_ONE};
use concrete_optimizer::parameters::{
    BrDecompositionParameters, Config, GlweParameters, KsDecompositionParameters, SearchSpace,
};
use concrete_optimizer::pareto::{cutted_blind_rotate, pareto_blind_rotate, pareto_keyswitch};
use concrete_optimizer::v0_dag::V0Dag;

const MAX_P: u64 = 4096;

fn config_with_pools(br_levels: &[u64], ks_levels: &[u64]) -> Config {
    Config {
        security_level: 128,
        maximum_acceptable_error_probability: MAX_P,
        ciphertext_modulus_log: 64,
        ks_decompositions: ks_levels
            .iter()
            .map(|&level| KsDecompositionParameters { level, log2_base: 4 })
            .collect(),
        br_decompositions: br_levels
            .iter()
            .map(|&level| BrDecompositionParameters { level, log2_base: 8 })
            .collect(),
    }
}

fn default_config() -> Config {
    config_with_pools(&[1, 2, 4], &[1, 2, 4])
}

fn default_search_space() -> SearchSpace {
    SearchSpace {
        glwe_dimensions: vec![1, 2],
        glwe_log_polynomial_sizes: vec![8, 9],
        internal_lwe_dimensions: vec![512, 1024],
    }
}

#[test]
fn test_pareto_blind_rotate_shape() {
    let oracle = ModelOracle;
    let config = default_config();
    let consts = OptimizationDecompositionsConsts {
        config: &config,
        sum_size: 1,
        noise_factor: 1,
        safe_variance: u64::MAX,
    };
    let glwe = GlweParameters { log2_polynomial_size: 8, glwe_dimension: 1 };
    let list = pareto_blind_rotate(&oracle, &consts, 512, glwe, u128::MAX, u128::MAX);
    assert_eq!(list.len(), 3);
    assert!(list.len() < 64);
    let costs: Vec<u64> = list.iter().map(|e| e.complexity).collect();
    let noises: Vec<u64> = list.iter().map(|e| e.noise).collect();
    let indices: Vec<usize> = list.iter().map(|e| e.index).collect();
    assert_eq!(indices, vec![0, 1, 2]);
    assert_eq!(costs, vec![66049, 131585, 262657]);
    assert_eq!(noises, vec![2147484032, 1431656149, 858993843]);
    for k in 1..list.len() {
        assert!(list[k - 1].complexity < list[k].complexity);
        assert!(list[k - 1].noise > list[k].noise);
    }
}

#[test]
fn test_pareto_drops_dominated_duplicate() {
    // Two entries with the same level give the same cost and noise: the
    // second is dominated and dropped.
    let oracle = ModelOracle;
    let config = config_with_pools(&[1, 1, 2], &[1]);
    let consts = OptimizationDecompositionsConsts {
        config: &config,
        sum_size: 1,
        noise_factor: 1,
        safe_variance: u64::MAX,
    };
    let glwe = GlweParameters { log2_polynomial_size: 8, glwe_dimension: 1 };
    let list = pareto_blind_rotate(&oracle, &consts, 512, glwe, u128::MAX, u128::MAX);
    let indices: Vec<usize> = list.iter().map(|e| e.index).collect();
    assert_eq!(indices, vec![0, 2]);
}

#[test]
fn test_cutted_blind_rotate_keeps_dominated() {
    // Without the Pareto cut the dominated duplicate stays.
    let oracle = ModelOracle;
    let config = config_with_pools(&[1, 1, 2], &[1]);
    let consts = OptimizationDecompositionsConsts {
        config: &config,
        sum_size: 1,
        noise_factor: 1,
        safe_variance: u64::MAX,
    };
    let glwe = GlweParameters { log2_polynomial_size: 8, glwe_dimension: 1 };
    let list = cutted_blind_rotate(&oracle, &consts, 512, glwe, u128::MAX, u128::MAX);
    let indices: Vec<usize> = list.iter().map(|e| e.index).collect();
    assert_eq!(indices, vec![0, 1, 2]);
}

#[test]
fn test_pareto_cut_complexity_stops_scan() {
    // The cost budget admits only the first entry; the scan stops there.
    let oracle = ModelOracle;
    let config = default_config();
    let consts = OptimizationDecompositionsConsts {
        config: &config,
        sum_size: 1,
        noise_factor: 1,
        safe_variance: u64::MAX,
    };
    let glwe = GlweParameters { log2_polynomial_size: 8, glwe_dimension: 1 };
    let list = pareto_blind_rotate(&oracle, &consts, 512, glwe, 70000, u128::MAX);
    let indices: Vec<usize> = list.iter().map(|e| e.index).collect();
    assert_eq!(indices, vec![0]);
}

#[test]
fn test_pareto_cut_noise_skips_but_scans_on() {
    // The noise budget rejects the first (noisiest) entry but keeps the
    // deeper ones: a skip, not a stop.
    let oracle = ModelOracle;
    let config = default_config();
    let consts = OptimizationDecompositionsConsts {
        config: &config,
        sum_size: 1,
        noise_factor: 1,
        safe_variance: u64::MAX,
    };
    let glwe = GlweParameters { log2_polynomial_size: 8, glwe_dimension: 1 };
    let list = pareto_blind_rotate(&oracle, &consts, 512, glwe, u128::MAX, 2_000_000_000);
    let indices: Vec<usize> = list.iter().map(|e| e.index).collect();
    assert_eq!(indices, vec![1, 2]);
}

#[test]
fn test_pareto_keyswitch_shape() {
    let oracle = ModelOracle;
    let config = default_config();
    let consts = OptimizationDecompositionsConsts {
        config: &config,
        sum_size: 1,
        noise_factor: 1,
        safe_variance: u64::MAX,
    };
    let list = pareto_keyswitch(&oracle, &consts, 256, 512, u128::MAX, u128::MAX);
    let costs: Vec<u64> = list.iter().map(|e| e.complexity).collect();
    let noises: Vec<u64> = list.iter().map(|e| e.noise).collect();
    assert_eq!(costs, vec![257, 513, 1025]);
    assert_eq!(noises, vec![134217729, 89478486, 53687092]);
}

#[test]
fn test_optimize_one_finds_cheapest_feasible() {
    let oracle = ModelOracle;
    let config = default_config();
    let space = default_search_space();
    let state = optimize_one(&oracle, 1, 4, &config, 1, &space, None);
    assert_eq!(state.count_domain, 2 * 2 * 2 * 3 * 3);
    let sol = state.best_solution.expect("a solution must exist");
    assert_eq!(sol.input_lwe_dimension, 256);
    assert_eq!(sol.internal_ks_output_lwe_dimension, 512);
    assert_eq!(sol.glwe_polynomial_size, 256);
    assert_eq!(sol.glwe_dimension, 1);
    assert_eq!(sol.br_decomposition_level_count, 1);
    assert_eq!(sol.br_decomposition_base_log, 8);
    assert_eq!(sol.ks_decomposition_level_count, 1);
    assert_eq!(sol.ks_decomposition_base_log, 4);
    assert_eq!(sol.complexity, 66562);
    assert_eq!(sol.noise_max, 2281702145);
    assert_eq!(sol.p_error, MAX_P / 2);
    assert_eq!(sol.global_p_error, None);
    assert!(sol.p_error <= MAX_P);
}

#[test]
fn test_optimize_one_weight_scales_noise() {
    let oracle = ModelOracle;
    let config = default_config();
    let space = default_search_space();
    let state = optimize_one(&oracle, 1, 4, &config, 2, &space, None);
    let sol = state.best_solution.expect("a solution must exist");
    // Same cheapest parameters, but the bootstrap noise is weighted by 4.
    assert_eq!(sol.complexity, 66562);
    assert_eq!(sol.noise_max, 4 * 2147484032 + 134217729 + 384);
}

#[test]
fn test_optimize_one_p_error_tracks_noise_margin() {
    // At precision 16 the same best point sits in the upper half of the safe
    // band, so the model reports the full probability bound.
    let oracle = ModelOracle;
    let config = default_config();
    let space = default_search_space();
    let state = optimize_one(&oracle, 1, 16, &config, 1, &space, None);
    let sol = state.best_solution.expect("a solution must exist");
    assert_eq!(sol.complexity, 66562);
    assert_eq!(sol.p_error, MAX_P);
}

#[test]
fn test_optimize_one_infeasible_space() {
    // A huge internal dimension makes the modulus-switching noise alone break
    // the bound at every coordinate.
    let oracle = ModelOracle;
    let config = default_config();
    let space = SearchSpace {
        glwe_dimensions: vec![1, 2],
        glwe_log_polynomial_sizes: vec![8, 9],
        internal_lwe_dimensions: vec![1 << 36],
    };
    let state = optimize_one(&oracle, 1, 16, &config, 1, &space, None);
    assert!(state.best_solution.is_none());
    assert_eq!(state.count_domain, 2 * 2 * 1 * 3 * 3);
}

#[test]
fn test_optimize_one_restart_skips_small_coordinates() {
    let oracle = ModelOracle;
    let config = default_config();
    let space = default_search_space();
    let hint = Solution {
        input_lwe_dimension: 0,
        internal_ks_output_lwe_dimension: 0,
        ks_decomposition_level_count: 0,
        ks_decomposition_base_log: 0,
        glwe_polynomial_size: 512,
        glwe_dimension: 2,
        br_decomposition_level_count: 0,
        br_decomposition_base_log: 0,
        complexity: 0,
        noise_max: 0,
        p_error: 0,
        global_p_error: None,
    };
    let state = optimize_one(&oracle, 1, 4, &config, 1, &space, Some(hint));
    let sol = state.best_solution.expect("a solution must exist");
    // The (glwe_dim 1, polynomial 256) coordinate is skipped; the next
    // cheapest one wins.
    assert_eq!(sol.glwe_dimension, 1);
    assert_eq!(sol.glwe_polynomial_size, 512);
    assert_eq!(sol.complexity, 66819);
    assert_eq!(sol.noise_max, 2281702401);
}

#[test]
fn test_optimize_circuit_doubles_pattern_cost() {
    let oracle = ModelOracle;
    let config = default_config();
    let space = default_search_space();
    let safe_variance = oracle.safe_variance_bound(4, 64, MAX_P);
    let dag = V0Dag {
        oracle: &oracle,
        sum_size: 1,
        noise_factor: 1,
        safe_variance,
        max_error_probability: MAX_P,
    };
    let state = optimize(&dag, &oracle, &config, &space);
    let sol = state.best_solution.expect("a solution must exist");
    assert_eq!(sol.complexity, 2 * 66562);
    assert_eq!(sol.noise_max, 2281702145);
    assert_eq!(sol.p_error, MAX_P / 2);
    // Two bootstraps: 1 - (1 - p)^2 in fixed point.
    assert_eq!(sol.global_p_error, Some(2 * (MAX_P / 2)));
    assert!(sol.p_error <= sol.global_p_error.unwrap());
    assert!(sol.global_p_error.unwrap() <= PROB_ONE);
}

#[test]
fn test_v0_dag_oracle_values() {
    let oracle = ModelOracle;
    let dag = V0Dag {
        oracle: &oracle,
        sum_size: 3,
        noise_factor: 2,
        safe_variance: 1000,
        max_error_probability: MAX_P,
    };
    assert_eq!(dag.nb_luts(), 2);
    assert!(!dag.has_only_luts_with_inputs());
    assert_eq!(dag.safe_variance(), 1000);
    // cost = 2 * sum_size * dimension + 2 * one_lut_cost
    assert_eq!(dag.complexity_cost(100, 7), 2 * 300 + 14);
    // variance = weight^2 * br + ks + ms, checked against the bound
    assert!(dag.feasible(10, 100, 200, 300));
    assert!(!dag.feasible(10, 300, 200, 300));
    assert!(!dag.feasible(999, 100, 200, 300));
    let (p, variance) = dag.peek_p_error(10, 100, 200, 300);
    assert_eq!(variance, 4 * 100 + 200 + 300);
    assert_eq!(p, MAX_P);
}

#[test]
fn test_v0_parameters_match_atomic() {
    // The cross-check: the circuit entry point halves its cost back to the
    // atomic cost and picks the same parameters.
    let oracle = ModelOracle;
    let config = default_config();
    let space = default_search_space();
    for precision in [1u64, 4, 8, 16] {
        for noise_factor in [1u64, 2, 256, 65536] {
            let reference = optimize_one(&oracle, 1, precision, &config, noise_factor, &space, None);
            let state = optimize_v0(&oracle, 1, precision, &config, noise_factor, &space);
            assert_eq!(state.best_solution.is_some(), reference.best_solution.is_some());
            if let (Some(sol), Some(sol_ref)) = (state.best_solution, reference.best_solution) {
                assert_eq!(sol.complexity, sol_ref.complexity);
                assert_eq!(sol.noise_max, sol_ref.noise_max);
                assert_eq!(sol.p_error, sol_ref.p_error);
                assert_eq!(sol.glwe_dimension, sol_ref.glwe_dimension);
                assert_eq!(sol.glwe_polynomial_size, sol_ref.glwe_polynomial_size);
                assert_eq!(
                    sol.internal_ks_output_lwe_dimension,
                    sol_ref.internal_ks_output_lwe_dimension
                );
                assert_eq!(
                    sol.br_decomposition_level_count,
                    sol_ref.br_decomposition_level_count
                );
                assert_eq!(
                    sol.ks_decomposition_level_count,
                    sol_ref.ks_decomposition_level_count
                );
                assert!(sol.global_p_error.is_some());
                assert!(sol.p_error <= sol.global_p_error.unwrap());
                assert!(sol.global_p_error.unwrap() <= PROB_ONE);
            }
        }
    }
}

#[test]
fn test_optimize_one_improves_over_incumbent_only() {
    // Feeding the best solution back as the incumbent of a second search over
    // a worse space must keep the incumbent.
    let oracle = ModelOracle;
    let config = default_config();
    let space = default_search_space();
    let first = optimize_one(&oracle, 1, 4, &config, 1, &space, None);
    let best = first.best_solution.expect("a solution must exist");
    // A strictly worse space: larger dimensions everywhere.
    let worse = SearchSpace {
        glwe_dimensions: vec![2],
        glwe_log_polynomial_sizes: vec![10],
        internal_lwe_dimensions: vec![2048],
    };
    let second = optimize_one(&oracle, 1, 4, &config, 1, &worse, None);
    let sol = second.best_solution.expect("a solution must exist");
    assert!(best.complexity < sol.complexity);
}

#[test]
fn test_model_oracle_formulas() {
    let oracle = ModelOracle;
    assert_eq!(oracle.modulus_switching_noise(512, 256, 64), 512 / 4 + 256);
    assert_eq!(oracle.safe_variance_bound(4, 64, MAX_P), 1u64 << 44);
    assert_eq!(oracle.minimal_variance_glwe(
        GlweParameters { log2_polynomial_size: 8, glwe_dimension: 1 },
        64,
        128,
    ), 0x180);
    // Probability regions: half the bound deep inside the band, the full
    // bound close to it, certainty outside it.
    assert_eq!(oracle.error_probability(MAX_P, 1000, 400), MAX_P / 2);
    assert_eq!(oracle.error_probability(MAX_P, 1000, 800), MAX_P);
    assert_eq!(oracle.error_probability(MAX_P, 1000, 1001), PROB_ONE);
}

#[test]
fn test_combiner_noise_cut_picks_stronger_decomposition() {
    // A tight noise bound rules out the cheap decompositions: the scan must
    // cross the two fronts and settle on the cheapest feasible pair.
    let oracle = ModelOracle;
    let config = default_config();
    let consts = OptimizationDecompositionsConsts {
        config: &config,
        sum_size: 1,
        noise_factor: 1,
        safe_variance: 1_500_000_000,
    };
    let glwe = GlweParameters { log2_polynomial_size: 8, glwe_dimension: 1 };
    let mut state = concrete_optimizer::atomic_pattern::OptimizationState {
        best_solution: None,
        count_domain: 0,
    };
    concrete_optimizer::atomic_pattern::update_state_with_best_decompositions(
        &mut state, &oracle, &consts, 512, glwe,
    );
    let sol = state.best_solution.expect("a solution must exist");
    assert_eq!(sol.br_decomposition_level_count, 2);
    assert_eq!(sol.ks_decomposition_level_count, 4);
    assert_eq!(sol.complexity, 256 + 131585 + 1025);
    assert_eq!(sol.noise_max, 1431656149 + 53687092 + 384);
}

#[test]
fn test_combiner_improves_incumbent_lexicographically() {
    // With a loose bound the combiner replaces a costlier incumbent by the
    // strictly cheaper pair, even though that pair is noisier.
    let oracle = ModelOracle;
    let config = default_config();
    let glwe = GlweParameters { log2_polynomial_size: 8, glwe_dimension: 1 };
    let tight = OptimizationDecompositionsConsts {
        config: &config,
        sum_size: 1,
        noise_factor: 1,
        safe_variance: 1_500_000_000,
    };
    let mut state = concrete_optimizer::atomic_pattern::OptimizationState {
        best_solution: None,
        count_domain: 0,
    };
    concrete_optimizer::atomic_pattern::update_state_with_best_decompositions(
        &mut state, &oracle, &tight, 512, glwe,
    );
    let first = state.best_solution.expect("a solution must exist");
    let loose = OptimizationDecompositionsConsts {
        config: &config,
        sum_size: 1,
        noise_factor: 1,
        safe_variance: oracle.safe_variance_bound(4, 64, MAX_P),
    };
    concrete_optimizer::atomic_pattern::update_state_with_best_decompositions(
        &mut state, &oracle, &loose, 512, glwe,
    );
    let second = state.best_solution.expect("a solution must exist");
    assert!(second.complexity < first.complexity);
    assert!(second.noise_max > first.noise_max);
    assert_eq!(second.br_decomposition_level_count, 1);
    assert_eq!(second.ks_decomposition_level_count, 1);
}

#[test]
fn test_optimize_circuit_infeasible_when_input_noise_over_budget() {
    // The fresh-input noise alone exceeds what the bound leaves after modulus
    // switching: no parameter choice can help.
    let oracle = ModelOracle;
    let config = default_config();
    let space = default_search_space();
    let dag = V0Dag {
        oracle: &oracle,
        sum_size: 1,
        noise_factor: 1,
        safe_variance: 484,
        max_error_probability: MAX_P,
    };
    let state = optimize(&dag, &oracle, &config, &space);
    assert!(state.best_solution.is_none());
}

#[test]
fn test_optimize_circuit_breaks_on_growing_internal_dimension() {
    // The second internal dimension makes the modulus-switching noise alone
    // infeasible; the search must still return the feasible first one.
    let oracle = ModelOracle;
    let config = default_config();
    let space = SearchSpace {
        glwe_dimensions: vec![1],
        glwe_log_polynomial_sizes: vec![8],
        internal_lwe_dimensions: vec![512, 1 << 36],
    };
    let safe_variance = oracle.safe_variance_bound(16, 64, MAX_P);
    let dag = V0Dag {
        oracle: &oracle,
        sum_size: 1,
        noise_factor: 1,
        safe_variance,
        max_error_probability: MAX_P,
    };
    let state = optimize(&dag, &oracle, &config, &space);
    let sol = state.best_solution.expect("a solution must exist");
    assert_eq!(sol.internal_ks_output_lwe_dimension, 512);
}
