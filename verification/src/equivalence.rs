//! The cross-check law relating the two entry points.
//!
//! Optimizing the synthetic two-bootstrap circuit is equivalent to optimizing
//! one atomic pattern: a candidate is feasible for one search exactly when it
//! is feasible for the other, and the circuit costs exactly twice the
//! pattern.  Both searches return the minimum feasible cost, so they succeed
//! on the same inputs and agree on the cost once the circuit's is halved.

use vstd::prelude::*;

use crate::atomic_pattern::{
    atomic_complexity, atomic_feasible, atomic_noise, glwe_of, improves_opt, run_consts,
    searched_optimal, solution_attained, solution_matches, spec_input_dim, spec_input_dim64,
    Solution,
};
use crate::dag_optimize::{
    dag_complexity, dag_feasible, dag_input_noise, dag_ms_noise, dag_p_error, improves_dag,
    searched_optimal_dag, solution_attained_dag, solution_matches_dag, v0_dag_of,
};
use crate::dag::AnalyzedDag;
use crate::oracle::Oracle;
use crate::parameters::{Config, PbsParameters, SearchSpace};
use crate::pareto::{br_noise_at, ks_noise_at};

verus! {

/// A candidate is feasible for the synthetic circuit exactly when it is
/// feasible for the atomic pattern, and its circuit cost is exactly twice its
/// pattern cost.
proof fn lemma_v0_candidate_correspondence<O: Oracle>(
    oracle: &O,
    config: &Config,
    sum_size: u64,
    noise_factor: u64,
    precision: u64,
    glwe_dim: u64,
    log2_poly_size: u64,
    internal_dim: u64,
    i_br: int,
    i_ks: int,
)
    requires
        1 <= noise_factor <= 0x10_0000,
        sum_size <= 0xFFFF_FFFF,
        spec_input_dim(glwe_dim, log2_poly_size) <= u64::MAX,
    ensures
        dag_feasible(
            oracle,
            &v0_dag_of(oracle, config, sum_size, noise_factor, precision),
            config,
            glwe_dim,
            log2_poly_size,
            internal_dim,
            i_br,
            i_ks,
        ) == atomic_feasible(
            oracle,
            &run_consts(oracle, config, sum_size, noise_factor, precision),
            glwe_dim,
            log2_poly_size,
            internal_dim,
            i_br,
            i_ks,
        ),
        dag_complexity(
            oracle,
            &v0_dag_of(oracle, config, sum_size, noise_factor, precision),
            config,
            glwe_dim,
            log2_poly_size,
            internal_dim,
            i_br,
            i_ks,
        ) == 2 * atomic_complexity(
            oracle,
            &run_consts(oracle, config, sum_size, noise_factor, precision),
            glwe_dim,
            log2_poly_size,
            internal_dim,
            i_br,
            i_ks,
        ),
        crate::dag_optimize::dag_variance(
            oracle,
            &v0_dag_of(oracle, config, sum_size, noise_factor, precision),
            config,
            glwe_dim,
            log2_poly_size,
            internal_dim,
            i_br,
            i_ks,
        ) == atomic_noise(
            oracle,
            &run_consts(oracle, config, sum_size, noise_factor, precision),
            glwe_dim,
            log2_poly_size,
            internal_dim,
            i_br,
            i_ks,
        ),
        dag_p_error(
            oracle,
            &v0_dag_of(oracle, config, sum_size, noise_factor, precision),
            config,
            glwe_dim,
            log2_poly_size,
            internal_dim,
            i_br,
            i_ks,
        ) == oracle.spec_error_probability(
            config.maximum_acceptable_error_probability,
            oracle.spec_safe_variance_bound(
                precision,
                config.ciphertext_modulus_log,
                config.maximum_acceptable_error_probability,
            ),
            atomic_noise(
                oracle,
                &run_consts(oracle, config, sum_size, noise_factor, precision),
                glwe_dim,
                log2_poly_size,
                internal_dim,
                i_br,
                i_ks,
            ) as u128,
        ),
{
    let dag = v0_dag_of(oracle, config, sum_size, noise_factor, precision);
    let consts = run_consts(oracle, config, sum_size, noise_factor, precision);
    let glwe = glwe_of(glwe_dim, log2_poly_size);
    let input64 = spec_input_dim64(glwe_dim, log2_poly_size);
    let br = br_noise_at(oracle, config, internal_dim, glwe, i_br);
    let ks = ks_noise_at(oracle, config, input64, internal_dim, i_ks);
    let ms = dag_ms_noise(oracle, config, log2_poly_size, internal_dim);
    let nf = noise_factor as int;
    assert(dag.spec_weight() == nf);
    vstd::arithmetic::mul::lemma_mul_upper_bound(nf, 0x10_0000, nf, 0x10_0000);
    vstd::arithmetic::mul::lemma_mul_upper_bound(
        nf * nf,
        0x100_0000_0000,
        br as int,
        0xFFFF_FFFF_FFFF_FFFF,
    );
    assert(dag.spec_variance(br, ks, ms) == atomic_noise(
        oracle,
        &consts,
        glwe_dim,
        log2_poly_size,
        internal_dim,
        i_br,
        i_ks,
    ));
    // A bootstrap output is at least as noisy as a fresh ciphertext, so the
    // circuit's extra input-noise constraint never binds.
    if atomic_feasible(oracle, &consts, glwe_dim, log2_poly_size, internal_dim, i_br, i_ks) {
        oracle.law_variance_bootstrap_refreshes(
            PbsParameters {
                internal_lwe_dimension: internal_dim,
                br_decomposition_parameter: config.br_decompositions@[i_br],
                output_glwe_params: glwe,
            },
            config.ciphertext_modulus_log,
            config.security_level,
        );
        assert(dag_input_noise(oracle, config, glwe_dim, log2_poly_size) <= br);
        assert(nf * nf * br >= br) by (nonlinear_arith)
            requires
                nf >= 1,
                br >= 0,
        ;
        assert(dag_input_noise(oracle, config, glwe_dim, log2_poly_size) + ms
            <= dag.safe_variance);
    }
    // Costs: the circuit holds two dot products and two bootstraps.
    let cost_br = crate::pareto::br_complexity_at(oracle, config, internal_dim, glwe, i_br) as int;
    let cost_ks = crate::pareto::ks_complexity_at(oracle, config, input64, internal_dim, i_ks)
        as int;
    vstd::arithmetic::mul::lemma_mul_upper_bound(
        sum_size as int,
        0xFFFF_FFFF,
        input64 as int,
        0xFFFF_FFFF_FFFF_FFFF,
    );
    assert(input64 as int == spec_input_dim(glwe_dim, log2_poly_size));
    assert(dag.spec_complexity_cost(input64, (cost_br + cost_ks) as u128) as int == 2 * (sum_size
        * input64) + 2 * (cost_br + cost_ks));
    assert(atomic_complexity(oracle, &consts, glwe_dim, log2_poly_size, internal_dim, i_br, i_ks)
        == sum_size * spec_input_dim(glwe_dim, log2_poly_size) + cost_br + cost_ks);
}

/// The cross-check law: on the same inputs, the atomic search and the
/// synthetic-circuit search both find a solution or both find none, and when
/// they do, the circuit solution costs exactly twice the atomic one (so
/// halving it, as the cross-check entry point does, reproduces the atomic
/// cost).
///
/// `one_best` is the atomic search's result and `v0_full_best` the circuit
/// search's result before halving; the hypotheses are exactly what the two
/// searches guarantee about them.
pub proof fn lemma_v0_matches_atomic<O: Oracle>(
    oracle: &O,
    config: &Config,
    sum_size: u64,
    noise_factor: u64,
    precision: u64,
    search_space: &SearchSpace,
    one_best: Option<Solution>,
    v0_full_best: Option<Solution>,
)
    requires
        1 <= noise_factor <= 0x10_0000,
        sum_size <= 0xFFFF_FFFF,
        forall|gi: int, pi: int|
            0 <= gi < search_space.glwe_dimensions@.len() && 0 <= pi
                < search_space.glwe_log_polynomial_sizes@.len() ==> #[trigger] spec_input_dim(
                search_space.glwe_dimensions@[gi],
                search_space.glwe_log_polynomial_sizes@[pi],
            ) <= u64::MAX,
        searched_optimal(
            oracle,
            &run_consts(oracle, config, sum_size, noise_factor, precision),
            search_space,
            Option::None,
            one_best,
        ),
        one_best is Some ==> solution_attained(
            oracle,
            &run_consts(oracle, config, sum_size, noise_factor, precision),
            search_space,
            one_best.unwrap(),
        ),
        v0_full_best is None ==> searched_optimal_dag(
            oracle,
            &v0_dag_of(oracle, config, sum_size, noise_factor, precision),
            config,
            search_space,
            Option::None,
        ),
        v0_full_best is Some ==> searched_optimal_dag(
            oracle,
            &v0_dag_of(oracle, config, sum_size, noise_factor, precision),
            config,
            search_space,
            v0_full_best,
        ),
        v0_full_best is Some ==> solution_attained_dag(
            oracle,
            &v0_dag_of(oracle, config, sum_size, noise_factor, precision),
            config,
            search_space,
            v0_full_best.unwrap(),
        ),
    ensures
        one_best is Some <==> v0_full_best is Some,
        one_best is Some && v0_full_best is Some ==> 2 * one_best.unwrap().complexity
            == v0_full_best.unwrap().complexity,
{
    let dag = v0_dag_of(oracle, config, sum_size, noise_factor, precision);
    let consts = run_consts(oracle, config, sum_size, noise_factor, precision);
    if one_best is Some {
        // The atomic witness is feasible for the circuit too: the circuit
        // search cannot have come back empty.
        let s1 = one_best.unwrap();
        let (gi1, pi1, ni1, ibr1, iks1) = choose|gi: int, pi: int, ni: int, i_br: int, i_ks: int|
            0 <= gi < search_space.glwe_dimensions@.len() && 0 <= pi
                < search_space.glwe_log_polynomial_sizes@.len() && 0 <= ni
                < search_space.internal_lwe_dimensions@.len() && #[trigger] solution_matches(
                oracle,
                &consts,
                search_space.glwe_dimensions@[gi],
                search_space.glwe_log_polynomial_sizes@[pi],
                search_space.internal_lwe_dimensions@[ni],
                i_br,
                i_ks,
                s1,
            );
        let g1 = search_space.glwe_dimensions@[gi1];
        let p1 = search_space.glwe_log_polynomial_sizes@[pi1];
        let n1 = search_space.internal_lwe_dimensions@[ni1];
        lemma_v0_candidate_correspondence(
            oracle,
            config,
            sum_size,
            noise_factor,
            precision,
            g1,
            p1,
            n1,
            ibr1,
            iks1,
        );
        assert(dag_feasible(oracle, &dag, config, g1, p1, n1, ibr1, iks1));
        if v0_full_best is None {
            assert(crate::dag_optimize::point_optimal_dag(
                oracle,
                &dag,
                config,
                g1,
                p1,
                n1,
                Option::<Solution>::None,
            ));
            assert(!improves_dag(
                dag_complexity(oracle, &dag, config, g1, p1, n1, ibr1, iks1),
                dag_p_error(oracle, &dag, config, g1, p1, n1, ibr1, iks1) as int,
                Option::<Solution>::None,
            ));
            assert(false);
        }
    }
    if v0_full_best is Some {
        let s0 = v0_full_best.unwrap();
        let (gi0, pi0, ni0, ibr0, iks0) = choose|gi: int, pi: int, ni: int, i_br: int, i_ks: int|
            0 <= gi < search_space.glwe_dimensions@.len() && 0 <= pi
                < search_space.glwe_log_polynomial_sizes@.len() && 0 <= ni
                < search_space.internal_lwe_dimensions@.len() && #[trigger] solution_matches_dag(
                oracle,
                &dag,
                config,
                search_space.glwe_dimensions@[gi],
                search_space.glwe_log_polynomial_sizes@[pi],
                search_space.internal_lwe_dimensions@[ni],
                i_br,
                i_ks,
                s0,
            );
        let g0 = search_space.glwe_dimensions@[gi0];
        let p0 = search_space.glwe_log_polynomial_sizes@[pi0];
        let n0 = search_space.internal_lwe_dimensions@[ni0];
        lemma_v0_candidate_correspondence(
            oracle,
            config,
            sum_size,
            noise_factor,
            precision,
            g0,
            p0,
            n0,
            ibr0,
            iks0,
        );
        assert(atomic_feasible(oracle, &consts, g0, p0, n0, ibr0, iks0));
        if one_best is None {
            assert(crate::atomic_pattern::point_optimal(
                oracle,
                &consts,
                g0,
                p0,
                n0,
                Option::<Solution>::None,
            ));
            assert(!improves_opt(
                atomic_complexity(oracle, &consts, g0, p0, n0, ibr0, iks0),
                atomic_noise(oracle, &consts, g0, p0, n0, ibr0, iks0),
                Option::<Solution>::None,
            ));
            assert(false);
        }
        if one_best is Some {
            let s1 = one_best.unwrap();
            // The circuit witness, read as an atomic candidate, cannot beat
            // the atomic optimum.
            assert(crate::atomic_pattern::point_optimal(oracle, &consts, g0, p0, n0, one_best));
            assert(!improves_opt(
                atomic_complexity(oracle, &consts, g0, p0, n0, ibr0, iks0),
                atomic_noise(oracle, &consts, g0, p0, n0, ibr0, iks0),
                one_best,
            ));
            assert(s1.complexity <= atomic_complexity(oracle, &consts, g0, p0, n0, ibr0, iks0));
            assert(s0.complexity == 2 * atomic_complexity(oracle, &consts, g0, p0, n0, ibr0, iks0));
            // The atomic witness, read as a circuit candidate, cannot beat
            // the circuit optimum.
            let (gi1, pi1, ni1, ibr1, iks1) = choose|gi: int, pi: int, ni: int, i_br: int, i_ks: int|
                0 <= gi < search_space.glwe_dimensions@.len() && 0 <= pi
                    < search_space.glwe_log_polynomial_sizes@.len() && 0 <= ni
                    < search_space.internal_lwe_dimensions@.len() && #[trigger] solution_matches(
                    oracle,
                    &consts,
                    search_space.glwe_dimensions@[gi],
                    search_space.glwe_log_polynomial_sizes@[pi],
                    search_space.internal_lwe_dimensions@[ni],
                    i_br,
                    i_ks,
                    s1,
                );
            let g1 = search_space.glwe_dimensions@[gi1];
            let p1 = search_space.glwe_log_polynomial_sizes@[pi1];
            let n1 = search_space.internal_lwe_dimensions@[ni1];
            lemma_v0_candidate_correspondence(
                oracle,
                config,
                sum_size,
                noise_factor,
                precision,
                g1,
                p1,
                n1,
                ibr1,
                iks1,
            );
            assert(dag_feasible(oracle, &dag, config, g1, p1, n1, ibr1, iks1));
            assert(crate::dag_optimize::point_optimal_dag(
                oracle,
                &dag,
                config,
                g1,
                p1,
                n1,
                v0_full_best,
            ));
            assert(!improves_dag(
                dag_complexity(oracle, &dag, config, g1, p1, n1, ibr1, iks1),
                dag_p_error(oracle, &dag, config, g1, p1, n1, ibr1, iks1) as int,
                v0_full_best,
            ));
            assert(s0.complexity <= dag_complexity(oracle, &dag, config, g1, p1, n1, ibr1, iks1));
            assert(s0.complexity <= 2 * s1.complexity);
        }
    }
}

/// Under a probability model that is strictly monotone on the feasible band,
/// the two searches also agree on the output variance and the local failure
/// probability of the solution they return.  (An exact probability tie is the
/// one case where their different tie-breakers — variance for the atomic
/// search, failure probability for the circuit search — may diverge.)
pub proof fn lemma_v0_matches_atomic_observables<O: Oracle>(
    oracle: &O,
    config: &Config,
    sum_size: u64,
    noise_factor: u64,
    precision: u64,
    search_space: &SearchSpace,
    one_best: Option<Solution>,
    v0_full_best: Option<Solution>,
)
    requires
        1 <= noise_factor <= 0x10_0000,
        sum_size <= 0xFFFF_FFFF,
        forall|gi: int, pi: int|
            0 <= gi < search_space.glwe_dimensions@.len() && 0 <= pi
                < search_space.glwe_log_polynomial_sizes@.len() ==> #[trigger] spec_input_dim(
                search_space.glwe_dimensions@[gi],
                search_space.glwe_log_polynomial_sizes@[pi],
            ) <= u64::MAX,
        forall|n1: u128, n2: u128|
            n1 < n2 <= oracle.spec_safe_variance_bound(
                precision,
                config.ciphertext_modulus_log,
                config.maximum_acceptable_error_probability,
            ) ==> #[trigger] oracle.spec_error_probability(
                config.maximum_acceptable_error_probability,
                oracle.spec_safe_variance_bound(
                    precision,
                    config.ciphertext_modulus_log,
                    config.maximum_acceptable_error_probability,
                ),
                n1,
            ) < #[trigger] oracle.spec_error_probability(
                config.maximum_acceptable_error_probability,
                oracle.spec_safe_variance_bound(
                    precision,
                    config.ciphertext_modulus_log,
                    config.maximum_acceptable_error_probability,
                ),
                n2,
            ),
        searched_optimal(
            oracle,
            &run_consts(oracle, config, sum_size, noise_factor, precision),
            search_space,
            Option::None,
            one_best,
        ),
        one_best is Some ==> solution_attained(
            oracle,
            &run_consts(oracle, config, sum_size, noise_factor, precision),
            search_space,
            one_best.unwrap(),
        ),
        v0_full_best is Some ==> searched_optimal_dag(
            oracle,
            &v0_dag_of(oracle, config, sum_size, noise_factor, precision),
            config,
            search_space,
            v0_full_best,
        ),
        v0_full_best is Some ==> solution_attained_dag(
            oracle,
            &v0_dag_of(oracle, config, sum_size, noise_factor, precision),
            config,
            search_space,
            v0_full_best.unwrap(),
        ),
        one_best is Some,
        v0_full_best is Some,
    ensures
        one_best.unwrap().noise_max == v0_full_best.unwrap().noise_max,
        one_best.unwrap().p_error == v0_full_best.unwrap().p_error,
{
    let dag = v0_dag_of(oracle, config, sum_size, noise_factor, precision);
    let consts = run_consts(oracle, config, sum_size, noise_factor, precision);
    let safe = oracle.spec_safe_variance_bound(
        precision,
        config.ciphertext_modulus_log,
        config.maximum_acceptable_error_probability,
    );
    let s1 = one_best.unwrap();
    let s0 = v0_full_best.unwrap();
    let (gi1, pi1, ni1, ibr1, iks1) = choose|gi: int, pi: int, ni: int, i_br: int, i_ks: int|
        0 <= gi < search_space.glwe_dimensions@.len() && 0 <= pi
            < search_space.glwe_log_polynomial_sizes@.len() && 0 <= ni
            < search_space.internal_lwe_dimensions@.len() && #[trigger] solution_matches(
            oracle,
            &consts,
            search_space.glwe_dimensions@[gi],
            search_space.glwe_log_polynomial_sizes@[pi],
            search_space.internal_lwe_dimensions@[ni],
            i_br,
            i_ks,
            s1,
        );
    let g1 = search_space.glwe_dimensions@[gi1];
    let p1 = search_space.glwe_log_polynomial_sizes@[pi1];
    let n1 = search_space.internal_lwe_dimensions@[ni1];
    let (gi0, pi0, ni0, ibr0, iks0) = choose|gi: int, pi: int, ni: int, i_br: int, i_ks: int|
        0 <= gi < search_space.glwe_dimensions@.len() && 0 <= pi
            < search_space.glwe_log_polynomial_sizes@.len() && 0 <= ni
            < search_space.internal_lwe_dimensions@.len() && #[trigger] solution_matches_dag(
            oracle,
            &dag,
            config,
            search_space.glwe_dimensions@[gi],
            search_space.glwe_log_polynomial_sizes@[pi],
            search_space.internal_lwe_dimensions@[ni],
            i_br,
            i_ks,
            s0,
        );
    let g0 = search_space.glwe_dimensions@[gi0];
    let p0 = search_space.glwe_log_polynomial_sizes@[pi0];
    let n0 = search_space.internal_lwe_dimensions@[ni0];
    lemma_v0_candidate_correspondence(
        oracle,
        config,
        sum_size,
        noise_factor,
        precision,
        g1,
        p1,
        n1,
        ibr1,
        iks1,
    );
    lemma_v0_candidate_correspondence(
        oracle,
        config,
        sum_size,
        noise_factor,
        precision,
        g0,
        p0,
        n0,
        ibr0,
        iks0,
    );
    // Both searches already agree on the (doubled) cost.
    lemma_v0_matches_atomic(
        oracle,
        config,
        sum_size,
        noise_factor,
        precision,
        search_space,
        one_best,
        v0_full_best,
    );
    let v1 = atomic_noise(oracle, &consts, g1, p1, n1, ibr1, iks1);
    let v0w = atomic_noise(oracle, &consts, g0, p0, n0, ibr0, iks0);
    assert(s1.noise_max == v1);
    assert(s0.noise_max == v0w);
    assert(atomic_complexity(oracle, &consts, g0, p0, n0, ibr0, iks0) == s1.complexity);
    // The circuit witness cannot beat the atomic optimum on variance.
    assert(crate::atomic_pattern::point_optimal(oracle, &consts, g0, p0, n0, one_best));
    assert(atomic_feasible(oracle, &consts, g0, p0, n0, ibr0, iks0));
    assert(!improves_opt(
        atomic_complexity(oracle, &consts, g0, p0, n0, ibr0, iks0),
        v0w,
        one_best,
    ));
    assert(v0w >= v1);
    // The atomic witness cannot beat the circuit optimum on failure
    // probability.
    assert(crate::dag_optimize::point_optimal_dag(oracle, &dag, config, g1, p1, n1, v0_full_best));
    assert(dag_feasible(oracle, &dag, config, g1, p1, n1, ibr1, iks1));
    assert(!improves_dag(
        dag_complexity(oracle, &dag, config, g1, p1, n1, ibr1, iks1),
        dag_p_error(oracle, &dag, config, g1, p1, n1, ibr1, iks1) as int,
        v0_full_best,
    ));
    assert(dag_p_error(oracle, &dag, config, g1, p1, n1, ibr1, iks1) >= s0.p_error);
    if v1 < v0w {
        // Strict monotonicity turns the probability comparison around.
        assert(v0w <= safe);
        assert(oracle.spec_error_probability(
            config.maximum_acceptable_error_probability,
            safe,
            v1 as u128,
        ) < oracle.spec_error_probability(
            config.maximum_acceptable_error_probability,
            safe,
            v0w as u128,
        ));
        assert(false);
    }
    assert(v1 == v0w);
}

} // verus!
