//! Optimization of a whole circuit against an analyzed DAG.
//!
//! The same two Pareto fronts and the same cross-Pareto scan as the atomic
//! search, but feasibility and failure probabilities come from the circuit
//! oracle, the cost is the circuit's (linear in the cost of one bootstrap),
//! and ties break on the local failure probability instead of the variance.

use vstd::prelude::*;

use crate::atomic_pattern::{
    glwe_of, spec_input_dim, spec_input_dim64, spec_poly_size, OptimizationDecompositionsConsts,
    OptimizationState, Solution,
};
use crate::dag::AnalyzedDag;
use crate::oracle::Oracle;
use crate::parameters::{Config, GlweParameters, SearchSpace};
use crate::pareto::{br_complexity_at, br_noise_at, ks_complexity_at, ks_noise_at, ComplexityNoise};

verus! {

/// The circuit's input noise at one outer coordinate: the minimal fresh GLWE
/// variance the security level allows.
pub open spec fn dag_input_noise<O: Oracle>(
    oracle: &O,
    config: &Config,
    glwe_dim: u64,
    log2_poly_size: u64,
) -> u64 {
    oracle.spec_minimal_variance_glwe(
        glwe_of(glwe_dim, log2_poly_size),
        config.ciphertext_modulus_log,
        config.security_level,
    )
}

/// Modulus-switching noise at one outer coordinate.
pub open spec fn dag_ms_noise<O: Oracle>(
    oracle: &O,
    config: &Config,
    log2_poly_size: u64,
    internal_dim: u64,
) -> u64 {
    oracle.spec_modulus_switching_noise(
        internal_dim,
        spec_poly_size(log2_poly_size),
        config.ciphertext_modulus_log,
    )
}

/// Total circuit cost of one candidate.
pub open spec fn dag_complexity<O: Oracle, D: AnalyzedDag>(
    oracle: &O,
    dag: &D,
    config: &Config,
    glwe_dim: u64,
    log2_poly_size: u64,
    internal_dim: u64,
    i_br: int,
    i_ks: int,
) -> int {
    dag.spec_complexity_cost(
        spec_input_dim64(glwe_dim, log2_poly_size),
        (br_complexity_at(oracle, config, internal_dim, glwe_of(glwe_dim, log2_poly_size), i_br)
            + ks_complexity_at(
            oracle,
            config,
            spec_input_dim64(glwe_dim, log2_poly_size),
            internal_dim,
            i_ks,
        )) as u128,
    ) as int
}

/// Circuit feasibility of one candidate.
pub open spec fn dag_feasible<O: Oracle, D: AnalyzedDag>(
    oracle: &O,
    dag: &D,
    config: &Config,
    glwe_dim: u64,
    log2_poly_size: u64,
    internal_dim: u64,
    i_br: int,
    i_ks: int,
) -> bool {
    dag.spec_feasible(
        dag_input_noise(oracle, config, glwe_dim, log2_poly_size),
        br_noise_at(oracle, config, internal_dim, glwe_of(glwe_dim, log2_poly_size), i_br),
        ks_noise_at(
            oracle,
            config,
            spec_input_dim64(glwe_dim, log2_poly_size),
            internal_dim,
            i_ks,
        ),
        dag_ms_noise(oracle, config, log2_poly_size, internal_dim),
    )
}

/// Local failure probability of one candidate.
pub open spec fn dag_p_error<O: Oracle, D: AnalyzedDag>(
    oracle: &O,
    dag: &D,
    config: &Config,
    glwe_dim: u64,
    log2_poly_size: u64,
    internal_dim: u64,
    i_br: int,
    i_ks: int,
) -> u64 {
    dag.spec_peek_p_error(
        dag_input_noise(oracle, config, glwe_dim, log2_poly_size),
        br_noise_at(oracle, config, internal_dim, glwe_of(glwe_dim, log2_poly_size), i_br),
        ks_noise_at(
            oracle,
            config,
            spec_input_dim64(glwe_dim, log2_poly_size),
            internal_dim,
            i_ks,
        ),
        dag_ms_noise(oracle, config, log2_poly_size, internal_dim),
    ).0
}

/// Worst output variance of one candidate.
pub open spec fn dag_variance<O: Oracle, D: AnalyzedDag>(
    oracle: &O,
    dag: &D,
    config: &Config,
    glwe_dim: u64,
    log2_poly_size: u64,
    internal_dim: u64,
    i_br: int,
    i_ks: int,
) -> u128 {
    dag.spec_peek_p_error(
        dag_input_noise(oracle, config, glwe_dim, log2_poly_size),
        br_noise_at(oracle, config, internal_dim, glwe_of(glwe_dim, log2_poly_size), i_br),
        ks_noise_at(
            oracle,
            config,
            spec_input_dim64(glwe_dim, log2_poly_size),
            internal_dim,
            i_ks,
        ),
        dag_ms_noise(oracle, config, log2_poly_size, internal_dim),
    ).1
}

/// Whole-circuit failure probability of one candidate.
pub open spec fn dag_global_p_error<O: Oracle, D: AnalyzedDag>(
    oracle: &O,
    dag: &D,
    config: &Config,
    glwe_dim: u64,
    log2_poly_size: u64,
    internal_dim: u64,
    i_br: int,
    i_ks: int,
) -> u64 {
    dag.spec_global_p_error(
        dag_input_noise(oracle, config, glwe_dim, log2_poly_size),
        br_noise_at(oracle, config, internal_dim, glwe_of(glwe_dim, log2_poly_size), i_br),
        ks_noise_at(
            oracle,
            config,
            spec_input_dim64(glwe_dim, log2_poly_size),
            internal_dim,
            i_ks,
        ),
        dag_ms_noise(oracle, config, log2_poly_size, internal_dim),
    )
}

/// The circuit improvement rule: strictly cheaper, or as cheap with strictly
/// fewer errors.  Anything improves on no solution.
pub open spec fn improves_dag(complexity: int, p_error: int, best: Option<Solution>) -> bool {
    match best {
        Option::None => true,
        Option::Some(s) => complexity < s.complexity || (complexity == s.complexity && p_error
            < s.p_error),
    }
}

/// `sol` is exactly the circuit candidate at these coordinates.
pub open spec fn solution_matches_dag<O: Oracle, D: AnalyzedDag>(
    oracle: &O,
    dag: &D,
    config: &Config,
    glwe_dim: u64,
    log2_poly_size: u64,
    internal_dim: u64,
    i_br: int,
    i_ks: int,
    sol: Solution,
) -> bool {
    &&& 0 <= i_br < config.br_decompositions@.len()
    &&& 0 <= i_ks < config.ks_decompositions@.len()
    &&& sol.input_lwe_dimension == spec_input_dim(glwe_dim, log2_poly_size)
    &&& sol.internal_ks_output_lwe_dimension == internal_dim
    &&& sol.ks_decomposition_level_count == config.ks_decompositions@[i_ks].level
    &&& sol.ks_decomposition_base_log == config.ks_decompositions@[i_ks].log2_base
    &&& sol.glwe_polynomial_size == spec_poly_size(log2_poly_size)
    &&& sol.glwe_dimension == glwe_dim
    &&& sol.br_decomposition_level_count == config.br_decompositions@[i_br].level
    &&& sol.br_decomposition_base_log == config.br_decompositions@[i_br].log2_base
    &&& sol.complexity == dag_complexity(
        oracle,
        dag,
        config,
        glwe_dim,
        log2_poly_size,
        internal_dim,
        i_br,
        i_ks,
    )
    &&& sol.noise_max == dag_variance(
        oracle,
        dag,
        config,
        glwe_dim,
        log2_poly_size,
        internal_dim,
        i_br,
        i_ks,
    )
    &&& sol.p_error == dag_p_error(
        oracle,
        dag,
        config,
        glwe_dim,
        log2_poly_size,
        internal_dim,
        i_br,
        i_ks,
    )
    &&& sol.global_p_error == Some(
        dag_global_p_error(
            oracle,
            dag,
            config,
            glwe_dim,
            log2_poly_size,
            internal_dim,
            i_br,
            i_ks,
        ),
    )
    &&& dag_feasible(oracle, dag, config, glwe_dim, log2_poly_size, internal_dim, i_br, i_ks)
}

/// No feasible circuit candidate at this outer coordinate improves on `best`.
pub open spec fn point_optimal_dag<O: Oracle, D: AnalyzedDag>(
    oracle: &O,
    dag: &D,
    config: &Config,
    glwe_dim: u64,
    log2_poly_size: u64,
    internal_dim: u64,
    best: Option<Solution>,
) -> bool {
    forall|i_br: int, i_ks: int|
        0 <= i_br < config.br_decompositions@.len() && 0 <= i_ks < config.ks_decompositions@.len()
            && #[trigger] dag_feasible(
            oracle,
            dag,
            config,
            glwe_dim,
            log2_poly_size,
            internal_dim,
            i_br,
            i_ks,
        ) ==> !improves_dag(
            dag_complexity(oracle, dag, config, glwe_dim, log2_poly_size, internal_dim, i_br, i_ks),
            dag_p_error(
                oracle,
                dag,
                config,
                glwe_dim,
                log2_poly_size,
                internal_dim,
                i_br,
                i_ks,
            ) as int,
            best,
        )
}

/// How one circuit combiner call may change the incumbent.
pub open spec fn state_progress_dag<O: Oracle, D: AnalyzedDag>(
    oracle: &O,
    dag: &D,
    config: &Config,
    glwe_dim: u64,
    log2_poly_size: u64,
    internal_dim: u64,
    old_best: Option<Solution>,
    new_best: Option<Solution>,
) -> bool {
    &&& (old_best is Some ==> new_best is Some)
    &&& (new_best == old_best || (new_best is Some && improves_dag(
        new_best.unwrap().complexity as int,
        new_best.unwrap().p_error as int,
        old_best,
    ) && exists|i_br: int, i_ks: int|
        #[trigger] solution_matches_dag(
            oracle,
            dag,
            config,
            glwe_dim,
            log2_poly_size,
            internal_dim,
            i_br,
            i_ks,
            new_best.unwrap(),
        )))
}

/// The tracked running minima agree with the incumbent.
pub open spec fn best_tracked_dag(
    best: Option<Solution>,
    best_complexity: u128,
    best_p_error: u64,
) -> bool {
    match best {
        Option::None => best_complexity == u128::MAX && best_p_error == u64::MAX,
        Option::Some(s) => s.complexity == best_complexity && s.p_error == best_p_error,
    }
}

/// Circuit cost of pairing two kept list entries.
pub open spec fn pair_complexity_dag<D: AnalyzedDag>(
    dag: &D,
    input_dim: u64,
    e_br: ComplexityNoise,
    e_ks: ComplexityNoise,
) -> int {
    dag.spec_complexity_cost(input_dim, (e_br.complexity + e_ks.complexity) as u128) as int
}

/// Local failure probability of pairing two kept list entries.
pub open spec fn pair_p_dag<D: AnalyzedDag>(
    dag: &D,
    input_noise: u64,
    ms_noise: u64,
    e_br: ComplexityNoise,
    e_ks: ComplexityNoise,
) -> u64 {
    dag.spec_peek_p_error(input_noise, e_br.noise, e_ks.noise, ms_noise).0
}

/// Circuit feasibility of pairing two kept list entries.
pub open spec fn pair_feasible_dag<D: AnalyzedDag>(
    dag: &D,
    input_noise: u64,
    ms_noise: u64,
    e_br: ComplexityNoise,
    e_ks: ComplexityNoise,
) -> bool {
    dag.spec_feasible(input_noise, e_br.noise, e_ks.noise, ms_noise)
}

/// Every feasible pair of a scanned blind-rotate entry with any key-switch
/// entry fails to improve on `best`.
pub open spec fn pairs_handled_dag<D: AnalyzedDag>(
    dag: &D,
    input_dim: u64,
    input_noise: u64,
    ms_noise: u64,
    br_list: Seq<ComplexityNoise>,
    ks_list: Seq<ComplexityNoise>,
    upto: int,
    best: Option<Solution>,
) -> bool {
    forall|a: int, b: int|
        0 <= a < upto && 0 <= b < ks_list.len() && pair_feasible_dag(
            dag,
            input_noise,
            ms_noise,
            #[trigger] br_list[a],
            #[trigger] ks_list[b],
        ) ==> !improves_dag(
            pair_complexity_dag(dag, input_dim, br_list[a], ks_list[b]),
            pair_p_dag(dag, input_noise, ms_noise, br_list[a], ks_list[b]) as int,
            best,
        )
}

/// Above the cursor, every key-switch entry formed a feasible pair with some
/// already scanned blind-rotate entry.
pub open spec fn cursor_sound_dag<D: AnalyzedDag>(
    dag: &D,
    input_noise: u64,
    ms_noise: u64,
    br_list: Seq<ComplexityNoise>,
    ks_list: Seq<ComplexityNoise>,
    upto: int,
    cursor: int,
) -> bool {
    forall|b: int|
        cursor < b < ks_list.len() ==> exists|a0: int|
            0 <= a0 < upto && pair_feasible_dag(
                dag,
                input_noise,
                ms_noise,
                #[trigger] br_list[a0],
                #[trigger] ks_list[b],
            )
}

/// No feasible circuit candidate anywhere in the search space improves on
/// `best`.
pub open spec fn searched_optimal_dag<O: Oracle, D: AnalyzedDag>(
    oracle: &O,
    dag: &D,
    config: &Config,
    search_space: &SearchSpace,
    best: Option<Solution>,
) -> bool {
    forall|gi: int, pi: int, ni: int|
        0 <= gi < search_space.glwe_dimensions@.len() && 0 <= pi
            < search_space.glwe_log_polynomial_sizes@.len() && 0 <= ni
            < search_space.internal_lwe_dimensions@.len() ==> #[trigger] point_optimal_dag(
            oracle,
            dag,
            config,
            search_space.glwe_dimensions@[gi],
            search_space.glwe_log_polynomial_sizes@[pi],
            search_space.internal_lwe_dimensions@[ni],
            best,
        )
}

/// `sol` is a real circuit candidate of some coordinate of the search space.
pub open spec fn solution_attained_dag<O: Oracle, D: AnalyzedDag>(
    oracle: &O,
    dag: &D,
    config: &Config,
    search_space: &SearchSpace,
    sol: Solution,
) -> bool {
    exists|gi: int, pi: int, ni: int, i_br: int, i_ks: int|
        0 <= gi < search_space.glwe_dimensions@.len() && 0 <= pi
            < search_space.glwe_log_polynomial_sizes@.len() && 0 <= ni
            < search_space.internal_lwe_dimensions@.len() && #[trigger] solution_matches_dag(
            oracle,
            dag,
            config,
            search_space.glwe_dimensions@[gi],
            search_space.glwe_log_polynomial_sizes@[pi],
            search_space.internal_lwe_dimensions@[ni],
            i_br,
            i_ks,
            sol,
        )
}

/// A weakly dominated candidate improves whenever the dominating one does.
proof fn lemma_improves_dag_monotonic(c1: int, p1: int, c2: int, p2: int, best: Option<Solution>)
    requires
        c1 <= c2,
        p1 <= p2,
        improves_dag(c2, p2, best),
    ensures
        improves_dag(c1, p1, best),
{
}

/// A candidate that failed to improve still fails after the incumbent
/// improved.
proof fn lemma_not_improves_dag_preserved(c: int, p: int, best0: Option<Solution>, s1: Solution)
    requires
        !improves_dag(c, p, best0),
        improves_dag(s1.complexity as int, s1.p_error as int, best0),
    ensures
        !improves_dag(c, p, Some(s1)),
{
}

/// Improving the incumbent keeps every established per-point optimality.
proof fn lemma_point_optimal_dag_preserved<O: Oracle, D: AnalyzedDag>(
    oracle: &O,
    dag: &D,
    config: &Config,
    glwe_dim: u64,
    log2_poly_size: u64,
    internal_dim: u64,
    old_best: Option<Solution>,
    new_best: Option<Solution>,
)
    requires
        point_optimal_dag(oracle, dag, config, glwe_dim, log2_poly_size, internal_dim, old_best),
        new_best == old_best || (new_best is Some && improves_dag(
            new_best.unwrap().complexity as int,
            new_best.unwrap().p_error as int,
            old_best,
        )),
    ensures
        point_optimal_dag(oracle, dag, config, glwe_dim, log2_poly_size, internal_dim, new_best),
{
    if new_best != old_best {
        assert forall|i_br: int, i_ks: int|
            0 <= i_br < config.br_decompositions@.len() && 0 <= i_ks
                < config.ks_decompositions@.len() && #[trigger] dag_feasible(
                oracle,
                dag,
                config,
                glwe_dim,
                log2_poly_size,
                internal_dim,
                i_br,
                i_ks,
            ) implies !improves_dag(
            dag_complexity(oracle, dag, config, glwe_dim, log2_poly_size, internal_dim, i_br, i_ks),
            dag_p_error(
                oracle,
                dag,
                config,
                glwe_dim,
                log2_poly_size,
                internal_dim,
                i_br,
                i_ks,
            ) as int,
            new_best,
        ) by {
            lemma_not_improves_dag_preserved(
                dag_complexity(
                    oracle,
                    dag,
                    config,
                    glwe_dim,
                    log2_poly_size,
                    internal_dim,
                    i_br,
                    i_ks,
                ),
                dag_p_error(
                    oracle,
                    dag,
                    config,
                    glwe_dim,
                    log2_poly_size,
                    internal_dim,
                    i_br,
                    i_ks,
                ) as int,
                old_best,
                new_best.unwrap(),
            );
        }
    }
}

/// Over the floor-divided cut, the circuit cost strictly exceeds the
/// incumbent's.
proof fn lemma_cost_over_budget(base: int, nb: int, best_c: int, cut: int, lut_cost: int)
    requires
        nb >= 1,
        lut_cost >= 0,
        base <= best_c,
        cut == (best_c - base) / nb,
        lut_cost > cut,
    ensures
        base + nb * lut_cost > best_c,
{
    let x = best_c - base;
    vstd::arithmetic::div_mod::lemma_fundamental_div_mod(x, nb);
    vstd::arithmetic::div_mod::lemma_mod_bound(x, nb);
    vstd::arithmetic::mul::lemma_mul_inequality(cut + 1, lut_cost, nb);
    assert((cut + 1) * nb <= lut_cost * nb);
    assert(nb * lut_cost >= nb * cut + nb) by (nonlinear_arith)
        requires
            (cut + 1) * nb <= lut_cost * nb,
    ;
}

/// The reduction from the two kept lists to the full pools, circuit version.
#[verifier::rlimit(60)]
proof fn lemma_point_optimal_dag_from_lists<O: Oracle, D: AnalyzedDag>(
    oracle: &O,
    dag: &D,
    config: &Config,
    glwe_dim: u64,
    log2_poly_size: u64,
    internal_dim: u64,
    br_list: Seq<ComplexityNoise>,
    ks_list: Seq<ComplexityNoise>,
    cut_complexity_br: u128,
    cut_noise_br: u128,
    cut_complexity_ks: u128,
    cut_noise_ks: u128,
    cut_noise_base: u128,
    worst_ks_noise: u64,
    best0_complexity: int,
    best: Option<Solution>,
)
    requires
        spec_input_dim(glwe_dim, log2_poly_size) <= u64::MAX,
        br_list.len() > 0,
        forall|k: int|
            0 <= k < br_list.len() ==> #[trigger] crate::pareto::br_entry_ok(
                oracle,
                config,
                internal_dim,
                glwe_of(glwe_dim, log2_poly_size),
                cut_complexity_br,
                cut_noise_br,
                br_list[k],
            ),
        crate::pareto::pareto_shape(br_list),
        forall|i: int|
            0 <= i < config.br_decompositions@.len() ==> #[trigger] crate::pareto::br_entry_covered(
                oracle,
                config,
                internal_dim,
                glwe_of(glwe_dim, log2_poly_size),
                cut_complexity_br,
                cut_noise_br,
                true,
                br_list,
                i,
            ),
        forall|k: int|
            0 <= k < ks_list.len() ==> #[trigger] crate::pareto::ks_entry_ok(
                oracle,
                config,
                spec_input_dim64(glwe_dim, log2_poly_size),
                internal_dim,
                cut_complexity_ks,
                cut_noise_ks,
                ks_list[k],
            ),
        crate::pareto::pareto_shape(ks_list),
        forall|j: int|
            0 <= j < config.ks_decompositions@.len() ==> #[trigger] crate::pareto::ks_entry_covered(
                oracle,
                config,
                spec_input_dim64(glwe_dim, log2_poly_size),
                internal_dim,
                cut_complexity_ks,
                cut_noise_ks,
                ks_list,
                j,
            ),
        dag.spec_nb_luts() > 0 ==> dag_ms_noise(oracle, config, log2_poly_size, internal_dim)
            <= dag.spec_safe_variance() && cut_noise_base == dag.spec_safe_variance()
            - dag_ms_noise(oracle, config, log2_poly_size, internal_dim),
        dag.spec_nb_luts() == 0 ==> cut_noise_base == u128::MAX && cut_complexity_br == u128::MAX,
        cut_noise_br == if dag.spec_has_only_luts_with_inputs() {
            u128::MAX
        } else {
            cut_noise_base
        },
        worst_ks_noise == if dag.spec_has_only_luts_with_inputs() {
            dag_input_noise(oracle, config, glwe_dim, log2_poly_size)
        } else {
            br_list[br_list.len() - 1].noise
        },
        worst_ks_noise as u128 <= cut_noise_base,
        cut_noise_ks == cut_noise_base - worst_ks_noise,
        best is None ==> cut_complexity_br == u128::MAX,
        best is Some && dag.spec_nb_luts() > 0 && cut_complexity_br != u128::MAX
            ==> dag.spec_complexity_cost(spec_input_dim64(glwe_dim, log2_poly_size), 0)
            <= best0_complexity && cut_complexity_br as int == (best0_complexity
            - dag.spec_complexity_cost(spec_input_dim64(glwe_dim, log2_poly_size), 0))
            / (dag.spec_nb_luts() as int) && best.unwrap().complexity <= best0_complexity,
        cut_complexity_ks == cut_complexity_br - br_list[0].complexity,
        pairs_handled_dag(
            dag,
            spec_input_dim64(glwe_dim, log2_poly_size),
            dag_input_noise(oracle, config, glwe_dim, log2_poly_size),
            dag_ms_noise(oracle, config, log2_poly_size, internal_dim),
            br_list,
            ks_list,
            br_list.len() as int,
            best,
        ),
    ensures
        point_optimal_dag(oracle, dag, config, glwe_dim, log2_poly_size, internal_dim, best),
{
    let glwe = glwe_of(glwe_dim, log2_poly_size);
    let input64 = spec_input_dim64(glwe_dim, log2_poly_size);
    let noise_in = dag_input_noise(oracle, config, glwe_dim, log2_poly_size);
    let ms = dag_ms_noise(oracle, config, log2_poly_size, internal_dim);
    let nb = dag.spec_nb_luts() as int;
    let base = dag.spec_complexity_cost(input64, 0) as int;
    assert forall|i_br: int, i_ks: int|
        0 <= i_br < config.br_decompositions@.len() && 0 <= i_ks < config.ks_decompositions@.len()
            && #[trigger] dag_feasible(
            oracle,
            dag,
            config,
            glwe_dim,
            log2_poly_size,
            internal_dim,
            i_br,
            i_ks,
        ) implies !improves_dag(
        dag_complexity(oracle, dag, config, glwe_dim, log2_poly_size, internal_dim, i_br, i_ks),
        dag_p_error(oracle, dag, config, glwe_dim, log2_poly_size, internal_dim, i_br, i_ks) as int,
        best,
    ) by {
        let cost_i = br_complexity_at(oracle, config, internal_dim, glwe, i_br) as int;
        let noise_i = br_noise_at(oracle, config, internal_dim, glwe, i_br);
        let cost_j = ks_complexity_at(oracle, config, input64, internal_dim, i_ks) as int;
        let noise_j = ks_noise_at(oracle, config, input64, internal_dim, i_ks);
        let cand_c = dag_complexity(
            oracle,
            dag,
            config,
            glwe_dim,
            log2_poly_size,
            internal_dim,
            i_br,
            i_ks,
        );
        let cand_p = dag_p_error(
            oracle,
            dag,
            config,
            glwe_dim,
            log2_poly_size,
            internal_dim,
            i_br,
            i_ks,
        ) as int;
        dag.law_complexity_linear(input64, (cost_i + cost_j) as u128);
        assert(cand_c == base + nb * (cost_i + cost_j));
        assert(dag.spec_feasible(noise_in, noise_i, noise_j, ms));
        if improves_dag(cand_c, cand_p, best) {
            assert(nb * (cost_i + cost_j) >= 0) by (nonlinear_arith)
                requires
                    nb >= 0,
                    cost_i + cost_j >= 0,
            ;
            if nb > 0 && best is Some {
                assert(cand_c > best.unwrap().complexity ==> !improves_dag(cand_c, cand_p, best));
            }
            assert(crate::pareto::br_entry_covered(
                oracle,
                config,
                internal_dim,
                glwe,
                cut_complexity_br,
                cut_noise_br,
                true,
                br_list,
                i_br,
            ));
            if cost_i as u128 > cut_complexity_br {
                assert(best is Some && nb > 0 && cut_complexity_br != u128::MAX);
                lemma_cost_over_budget(
                    base,
                    nb,
                    best0_complexity,
                    cut_complexity_br as int,
                    cost_i + cost_j,
                );
                assert(cand_c > best.unwrap().complexity);
                assert(false);
            } else if noise_i as u128 > cut_noise_br {
                assert(!dag.spec_has_only_luts_with_inputs());
                assert(nb > 0);
                dag.law_feasible_lut_bound(noise_in, noise_i, noise_j, ms);
                assert(false);
            } else {
                let a = if exists|k: int|
                    0 <= k < br_list.len() && (#[trigger] br_list[k]).index == i_br {
                    choose|k: int| 0 <= k < br_list.len() && (#[trigger] br_list[k]).index == i_br
                } else {
                    choose|k: int|
                        0 <= k < br_list.len() && (#[trigger] br_list[k]).complexity
                            <= br_complexity_at(oracle, config, internal_dim, glwe, i_br)
                            && br_list[k].noise <= br_noise_at(
                            oracle,
                            config,
                            internal_dim,
                            glwe,
                            i_br,
                        )
                };
                assert(0 <= a < br_list.len());
                assert(crate::pareto::br_entry_ok(
                    oracle,
                    config,
                    internal_dim,
                    glwe,
                    cut_complexity_br,
                    cut_noise_br,
                    br_list[a],
                ));
                assert(br_list[a].complexity <= cost_i && br_list[a].noise <= noise_i);
                let e_a = br_list[a];
                assert(crate::pareto::ks_entry_covered(
                    oracle,
                    config,
                    input64,
                    internal_dim,
                    cut_complexity_ks,
                    cut_noise_ks,
                    ks_list,
                    i_ks,
                ));
                if cost_j as u128 > cut_complexity_ks {
                    assert(crate::pareto::br_entry_ok(
                        oracle,
                        config,
                        internal_dim,
                        glwe,
                        cut_complexity_br,
                        cut_noise_br,
                        br_list[0],
                    ));
                    if 0 < a {
                        assert(br_list[0].complexity < e_a.complexity);
                    }
                    assert(cost_i >= br_list[0].complexity);
                    assert(cost_i + cost_j > cut_complexity_br);
                    assert(best is Some && nb > 0 && cut_complexity_br != u128::MAX);
                    lemma_cost_over_budget(
                        base,
                        nb,
                        best0_complexity,
                        cut_complexity_br as int,
                        cost_i + cost_j,
                    );
                    assert(cand_c > best.unwrap().complexity);
                    assert(false);
                } else if noise_j as u128 > cut_noise_ks {
                    assert(nb > 0);
                    if dag.spec_has_only_luts_with_inputs() {
                        dag.law_feasible_input_lut_bound(noise_in, noise_i, noise_j, ms);
                        assert(false);
                    } else {
                        let last = br_list[br_list.len() - 1];
                        if a < br_list.len() - 1 {
                            assert(e_a.noise > last.noise);
                        }
                        assert(noise_i >= e_a.noise >= last.noise);
                        dag.law_feasible_lut_bound(noise_in, noise_i, noise_j, ms);
                        assert(false);
                    }
                } else {
                    let b = if exists|k: int|
                        0 <= k < ks_list.len() && (#[trigger] ks_list[k]).index == i_ks {
                        choose|k: int|
                            0 <= k < ks_list.len() && (#[trigger] ks_list[k]).index == i_ks
                    } else {
                        choose|k: int|
                            0 <= k < ks_list.len() && (#[trigger] ks_list[k]).complexity
                                <= ks_complexity_at(oracle, config, input64, internal_dim, i_ks)
                                && ks_list[k].noise <= ks_noise_at(
                                oracle,
                                config,
                                input64,
                                internal_dim,
                                i_ks,
                            )
                    };
                    assert(0 <= b < ks_list.len());
                    assert(crate::pareto::ks_entry_ok(
                        oracle,
                        config,
                        input64,
                        internal_dim,
                        cut_complexity_ks,
                        cut_noise_ks,
                        ks_list[b],
                    ));
                    assert(ks_list[b].complexity <= cost_j && ks_list[b].noise <= noise_j);
                    let e_b = ks_list[b];
                    dag.law_feasible_antitone(
                        noise_in,
                        e_a.noise,
                        e_b.noise,
                        ms,
                        noise_in,
                        noise_i,
                        noise_j,
                        ms,
                    );
                    assert(pair_feasible_dag(dag, noise_in, ms, e_a, e_b));
                    assert(!improves_dag(
                        pair_complexity_dag(dag, input64, e_a, e_b),
                        pair_p_dag(dag, noise_in, ms, e_a, e_b) as int,
                        best,
                    ));
                    dag.law_complexity_linear(input64, (e_a.complexity + e_b.complexity) as u128);
                    assert(pair_complexity_dag(dag, input64, e_a, e_b) == base + nb * (e_a.complexity
                        + e_b.complexity));
                    assert(nb * (e_a.complexity + e_b.complexity) <= nb * (cost_i + cost_j))
                        by (nonlinear_arith)
                        requires
                            0 <= nb,
                            e_a.complexity + e_b.complexity <= cost_i + cost_j,
                    ;
                    assert(pair_complexity_dag(dag, input64, e_a, e_b) <= cand_c);
                    dag.law_p_error_monotonic(
                        noise_in,
                        e_a.noise,
                        e_b.noise,
                        ms,
                        noise_in,
                        noise_i,
                        noise_j,
                        ms,
                    );
                    lemma_improves_dag_monotonic(
                        pair_complexity_dag(dag, input64, e_a, e_b),
                        pair_p_dag(dag, noise_in, ms, e_a, e_b) as int,
                        cand_c,
                        cand_p,
                        best,
                    );
                    assert(false);
                }
            }
        }
    }
}

/// Any circuit candidate attained by the search respects the probability
/// bounds the circuit was analyzed with.
proof fn lemma_attained_dag_bounds<O: Oracle, D: AnalyzedDag>(
    oracle: &O,
    dag: &D,
    config: &Config,
    search_space: &SearchSpace,
    sol: Solution,
)
    requires
        solution_attained_dag(oracle, dag, config, search_space, sol),
    ensures
        sol.global_p_error is Some,
        sol.p_error <= sol.global_p_error.unwrap(),
        sol.global_p_error.unwrap() <= crate::oracle::PROB_ONE,
        sol.p_error <= dag.spec_max_error_probability(),
{
    let (gi, pi, ni, i_br, i_ks) = choose|gi: int, pi: int, ni: int, i_br: int, i_ks: int|
        0 <= gi < search_space.glwe_dimensions@.len() && 0 <= pi
            < search_space.glwe_log_polynomial_sizes@.len() && 0 <= ni
            < search_space.internal_lwe_dimensions@.len() && #[trigger] solution_matches_dag(
            oracle,
            dag,
            config,
            search_space.glwe_dimensions@[gi],
            search_space.glwe_log_polynomial_sizes@[pi],
            search_space.internal_lwe_dimensions@[ni],
            i_br,
            i_ks,
            sol,
        );
    let glwe_dim = search_space.glwe_dimensions@[gi];
    let log2_poly_size = search_space.glwe_log_polynomial_sizes@[pi];
    let internal_dim = search_space.internal_lwe_dimensions@[ni];
    dag.law_p_error_bounds(
        dag_input_noise(oracle, config, glwe_dim, log2_poly_size),
        br_noise_at(oracle, config, internal_dim, glwe_of(glwe_dim, log2_poly_size), i_br),
        ks_noise_at(
            oracle,
            config,
            spec_input_dim64(glwe_dim, log2_poly_size),
            internal_dim,
            i_ks,
        ),
        dag_ms_noise(oracle, config, log2_poly_size, internal_dim),
    );
}

/// Scan the two pruned fronts for the cheapest feasible pair at one outer
/// coordinate, improving `state` under the circuit's lexicographic rule
/// (cost, then local failure probability).
#[verifier::loop_isolation(false)]
#[verifier::rlimit(100)]
pub fn update_best_solution_with_best_decompositions<O: Oracle, D: AnalyzedDag>(
    state: &mut OptimizationState,
    oracle: &O,
    consts: &OptimizationDecompositionsConsts,
    dag: &D,
    internal_dim: u64,
    glwe_params: GlweParameters,
    noise_modulus_switching: u64,
)
    requires
        crate::oracle::br_pool_sorted(
            oracle,
            consts.config.br_decompositions@,
            consts.config.ciphertext_modulus_log,
        ),
        crate::oracle::ks_pool_sorted(
            oracle,
            consts.config.ks_decompositions@,
            consts.config.ciphertext_modulus_log,
        ),
        consts.safe_variance == dag.spec_safe_variance(),
        glwe_params.log2_polynomial_size < 64,
        spec_input_dim(glwe_params.glwe_dimension, glwe_params.log2_polynomial_size) <= u64::MAX,
        noise_modulus_switching == dag_ms_noise(
            oracle,
            consts.config,
            glwe_params.log2_polynomial_size,
            internal_dim,
        ),
        old(state).best_solution is Some ==> old(state).best_solution.unwrap().complexity
            < u128::MAX,
    ensures
        final(state).count_domain == old(state).count_domain,
        final(state).best_solution is Some ==> final(state).best_solution.unwrap().complexity
            < u128::MAX,
        state_progress_dag(
            oracle,
            dag,
            consts.config,
            glwe_params.glwe_dimension,
            glwe_params.log2_polynomial_size,
            internal_dim,
            old(state).best_solution,
            final(state).best_solution,
        ),
        point_optimal_dag(
            oracle,
            dag,
            consts.config,
            glwe_params.glwe_dimension,
            glwe_params.log2_polynomial_size,
            internal_dim,
            final(state).best_solution,
        ),
{
    let config = consts.config;
    let ghost g = glwe_params.glwe_dimension;
    let ghost lp = glwe_params.log2_polynomial_size;
    proof {
        assert(glwe_of(g, lp) == glwe_params);
    }
    let glwe_poly_size = glwe_params.polynomial_size();
    let input_lwe_dimension = glwe_params.glwe_dimension * glwe_poly_size;
    let safe_variance = consts.safe_variance;
    let (best_complexity, best_p_error): (u128, u64) = match state.best_solution {
        Option::Some(s) => (s.complexity, s.p_error),
        Option::None => (u128::MAX, u64::MAX),
    };
    let mut best_complexity = best_complexity;
    let mut best_p_error = best_p_error;
    let input_noise_out = oracle.minimal_variance_glwe(
        glwe_params,
        config.ciphertext_modulus_log,
        config.security_level,
    );
    let nb_luts = dag.nb_luts();
    let ghost noise_in_g = dag_input_noise(oracle, config, g, lp);
    let ghost ms_g = noise_modulus_switching;
    let mut cut_noise: u128 = u128::MAX;
    let mut cut_complexity: u128 = u128::MAX;
    if nb_luts > 0 {
        if noise_modulus_switching > safe_variance {
            // The modulus-switching noise alone breaks every constraint.
            proof {
                assert forall|i_br: int, i_ks: int|
                    0 <= i_br < config.br_decompositions@.len() && 0 <= i_ks
                        < config.ks_decompositions@.len() && #[trigger] dag_feasible(
                        oracle,
                        dag,
                        config,
                        g,
                        lp,
                        internal_dim,
                        i_br,
                        i_ks,
                    ) implies !improves_dag(
                    dag_complexity(oracle, dag, config, g, lp, internal_dim, i_br, i_ks),
                    dag_p_error(oracle, dag, config, g, lp, internal_dim, i_br, i_ks) as int,
                    state.best_solution,
                ) by {
                    dag.law_feasible_input_bound(
                        noise_in_g,
                        br_noise_at(oracle, config, internal_dim, glwe_of(g, lp), i_br),
                        ks_noise_at(
                            oracle,
                            config,
                            spec_input_dim64(g, lp),
                            internal_dim,
                            i_ks,
                        ),
                        ms_g,
                    );
                    assert(false);
                }
            }
            return ;
        }
        cut_noise = (safe_variance - noise_modulus_switching) as u128;
        let base = dag.complexity_cost(input_lwe_dimension, 0);
        if best_complexity != u128::MAX {
            if base > best_complexity {
                // Even a free bootstrap cannot beat the incumbent here.
                proof {
                    assert forall|i_br: int, i_ks: int|
                        0 <= i_br < config.br_decompositions@.len() && 0 <= i_ks
                            < config.ks_decompositions@.len() && #[trigger] dag_feasible(
                            oracle,
                            dag,
                            config,
                            g,
                            lp,
                            internal_dim,
                            i_br,
                            i_ks,
                        ) implies !improves_dag(
                        dag_complexity(oracle, dag, config, g, lp, internal_dim, i_br, i_ks),
                        dag_p_error(oracle, dag, config, g, lp, internal_dim, i_br, i_ks) as int,
                        state.best_solution,
                    ) by {
                        let c = br_complexity_at(oracle, config, internal_dim, glwe_of(g, lp), i_br)
                            + ks_complexity_at(
                            oracle,
                            config,
                            spec_input_dim64(g, lp),
                            internal_dim,
                            i_ks,
                        );
                        dag.law_complexity_linear(spec_input_dim64(g, lp), c as u128);
                        assert(dag.spec_nb_luts() * c >= 0) by (nonlinear_arith)
                            requires
                                dag.spec_nb_luts() >= 0,
                                c >= 0,
                        ;
                    }
                }
                return ;
            }
            cut_complexity = (best_complexity - base) / (nb_luts as u128);
        }
    }
    let ghost cut_noise_base = cut_noise;
    if input_noise_out as u128 > cut_noise {
        // Fresh input noise alone is over the budget (only possible with at
        // least one bootstrap).
        proof {
            assert forall|i_br: int, i_ks: int|
                0 <= i_br < config.br_decompositions@.len() && 0 <= i_ks
                    < config.ks_decompositions@.len() && #[trigger] dag_feasible(
                    oracle,
                    dag,
                    config,
                    g,
                    lp,
                    internal_dim,
                    i_br,
                    i_ks,
                ) implies !improves_dag(
                dag_complexity(oracle, dag, config, g, lp, internal_dim, i_br, i_ks),
                dag_p_error(oracle, dag, config, g, lp, internal_dim, i_br, i_ks) as int,
                state.best_solution,
            ) by {
                assert(nb_luts > 0);
                dag.law_feasible_input_bound(
                    noise_in_g,
                    br_noise_at(oracle, config, internal_dim, glwe_of(g, lp), i_br),
                    ks_noise_at(oracle, config, spec_input_dim64(g, lp), internal_dim, i_ks),
                    ms_g,
                );
                assert(false);
            }
        }
        return ;
    }
    let has_only = dag.has_only_luts_with_inputs();
    let br_cut_noise: u128 = if has_only {
        u128::MAX
    } else {
        cut_noise
    };
    let br_cut_complexity = cut_complexity;
    let br_pareto = crate::pareto::pareto_blind_rotate(
        oracle,
        consts,
        internal_dim,
        glwe_params,
        br_cut_complexity,
        br_cut_noise,
    );
    if br_pareto.len() == 0 {
        proof {
            assert forall|i_br: int, i_ks: int|
                0 <= i_br < config.br_decompositions@.len() && 0 <= i_ks
                    < config.ks_decompositions@.len() && #[trigger] dag_feasible(
                    oracle,
                    dag,
                    config,
                    g,
                    lp,
                    internal_dim,
                    i_br,
                    i_ks,
                ) implies !improves_dag(
                dag_complexity(oracle, dag, config, g, lp, internal_dim, i_br, i_ks),
                dag_p_error(oracle, dag, config, g, lp, internal_dim, i_br, i_ks) as int,
                state.best_solution,
            ) by {
                let cost_i = br_complexity_at(oracle, config, internal_dim, glwe_of(g, lp), i_br)
                    as int;
                let noise_i = br_noise_at(oracle, config, internal_dim, glwe_of(g, lp), i_br);
                let cost_j = ks_complexity_at(
                    oracle,
                    config,
                    spec_input_dim64(g, lp),
                    internal_dim,
                    i_ks,
                ) as int;
                let noise_j = ks_noise_at(oracle, config, spec_input_dim64(g, lp), internal_dim, i_ks);
                assert(crate::pareto::br_entry_covered(
                    oracle,
                    config,
                    internal_dim,
                    glwe_of(g, lp),
                    br_cut_complexity,
                    br_cut_noise,
                    true,
                    br_pareto@,
                    i_br,
                ));
                if improves_dag(
                    dag_complexity(oracle, dag, config, g, lp, internal_dim, i_br, i_ks),
                    dag_p_error(oracle, dag, config, g, lp, internal_dim, i_br, i_ks) as int,
                    state.best_solution,
                ) {
                    dag.law_complexity_linear(spec_input_dim64(g, lp), (cost_i + cost_j) as u128);
                    if cost_i as u128 > br_cut_complexity {
                        assert(state.best_solution is Some && nb_luts > 0 && cut_complexity
                            != u128::MAX);
                        lemma_cost_over_budget(
                            dag.spec_complexity_cost(spec_input_dim64(g, lp), 0) as int,
                            nb_luts as int,
                            state.best_solution.unwrap().complexity as int,
                            cut_complexity as int,
                            cost_i + cost_j,
                        );
                        assert(false);
                    } else {
                        assert(noise_i as u128 > br_cut_noise);
                        assert(!has_only && nb_luts > 0);
                        dag.law_feasible_lut_bound(noise_in_g, noise_i, noise_j, ms_g);
                        assert(false);
                    }
                }
            }
        }
        return ;
    }
    let worst_input_ks_noise: u64 = if has_only {
        input_noise_out
    } else {
        br_pareto[br_pareto.len() - 1].noise
    };
    proof {
        assert(crate::pareto::br_entry_ok(
            oracle,
            config,
            internal_dim,
            glwe_of(g, lp),
            br_cut_complexity,
            br_cut_noise,
            br_pareto@[br_pareto@.len() - 1],
        ));
        assert(crate::pareto::br_entry_ok(
            oracle,
            config,
            internal_dim,
            glwe_of(g, lp),
            br_cut_complexity,
            br_cut_noise,
            br_pareto@[0],
        ));
    }
    let ks_cut_noise: u128 = cut_noise - worst_input_ks_noise as u128;
    let ks_cut_complexity: u128 = cut_complexity - br_pareto[0].complexity as u128;
    let ks_pareto = crate::pareto::pareto_keyswitch(
        oracle,
        consts,
        input_lwe_dimension,
        internal_dim,
        ks_cut_complexity,
        ks_cut_noise,
    );
    if ks_pareto.len() == 0 {
        proof {
            lemma_point_optimal_dag_from_lists(
                oracle,
                dag,
                config,
                g,
                lp,
                internal_dim,
                br_pareto@,
                ks_pareto@,
                br_cut_complexity,
                br_cut_noise,
                ks_cut_complexity,
                ks_cut_noise,
                cut_noise_base,
                worst_input_ks_noise,
                best_complexity as int,
                state.best_solution,
            );
        }
        return ;
    }
    let ghost best0_complexity_g: int = best_complexity as int;
    let i_max_ks = ks_pareto.len() - 1;
    let mut i_current_max_ks = i_max_ks;
    let mut a: usize = 0;
    let mut cut: bool = false;
    while a < br_pareto.len() && !cut
        invariant
            a <= br_pareto@.len(),
            i_current_max_ks < ks_pareto@.len(),
            state.count_domain == old(state).count_domain,
            best_tracked_dag(state.best_solution, best_complexity, best_p_error),
            state.best_solution is Some ==> state.best_solution.unwrap().complexity < u128::MAX,
            state_progress_dag(
                oracle,
                dag,
                config,
                g,
                lp,
                internal_dim,
                old(state).best_solution,
                state.best_solution,
            ),
            pairs_handled_dag(
                dag,
                input_lwe_dimension,
                noise_in_g,
                ms_g,
                br_pareto@,
                ks_pareto@,
                a as int,
                state.best_solution,
            ),
            cut ==> pairs_handled_dag(
                dag,
                input_lwe_dimension,
                noise_in_g,
                ms_g,
                br_pareto@,
                ks_pareto@,
                br_pareto@.len() as int,
                state.best_solution,
            ),
            cursor_sound_dag(
                dag,
                noise_in_g,
                ms_g,
                br_pareto@,
                ks_pareto@,
                a as int,
                i_current_max_ks as int,
            ),
        decreases br_pareto@.len() - a, if cut { 0int } else { 1int },
    {
        let br_quantity = br_pareto[a];
        proof {
            assert(crate::pareto::br_entry_ok(
                oracle,
                config,
                internal_dim,
                glwe_of(g, lp),
                br_cut_complexity,
                br_cut_noise,
                br_pareto@[a as int],
            ));
        }
        let not_feasible = !dag.feasible(
            input_noise_out,
            br_quantity.noise,
            0,
            noise_modulus_switching,
        );
        if not_feasible {
            // No key-switch noise can rescue this row.
            proof {
                assert forall|b: int| 0 <= b < ks_pareto@.len() implies !pair_feasible_dag(
                    dag,
                    noise_in_g,
                    ms_g,
                    br_pareto@[a as int],
                    ks_pareto@[b],
                ) by {
                    if pair_feasible_dag(dag, noise_in_g, ms_g, br_pareto@[a as int], ks_pareto@[b]) {
                        dag.law_feasible_antitone(
                            noise_in_g,
                            br_quantity.noise,
                            0,
                            ms_g,
                            noise_in_g,
                            br_quantity.noise,
                            ks_pareto@[b].noise,
                            ms_g,
                        );
                        assert(false);
                    }
                }
                assert forall|b: int| i_current_max_ks < b < ks_pareto@.len() implies exists|a0: int|
                    0 <= a0 < a + 1 && pair_feasible_dag(
                        dag,
                        noise_in_g,
                        ms_g,
                        #[trigger] br_pareto@[a0],
                        #[trigger] ks_pareto@[b],
                    ) by {
                    let a0 = choose|a0: int|
                        0 <= a0 < a && pair_feasible_dag(
                            dag,
                            noise_in_g,
                            ms_g,
                            #[trigger] br_pareto@[a0],
                            #[trigger] ks_pareto@[b],
                        );
                    assert(0 <= a0 < a + 1 && pair_feasible_dag(
                        dag,
                        noise_in_g,
                        ms_g,
                        br_pareto@[a0],
                        ks_pareto@[b],
                    ));
                }
            }
            a += 1;
            continue;
        }
        let complexity = dag.complexity_cost(input_lwe_dimension, br_quantity.complexity as u128);
        proof {
            dag.law_complexity_linear(input_lwe_dimension, br_quantity.complexity as u128);
        }
        if complexity > best_complexity {
            // Bootstrap cost alone is over the incumbent, and it only grows
            // along the front: stop the whole scan.
            proof {
                vstd::arithmetic::mul::lemma_mul_upper_bound(
                    dag.spec_nb_luts() as int,
                    0x1_0000_0000,
                    br_quantity.complexity as int,
                    0xFFFF_FFFF_FFFF_FFFF,
                );
                assert(state.best_solution is Some);
                assert forall|a2: int, b: int|
                    0 <= a2 < br_pareto@.len() && 0 <= b < ks_pareto@.len() && pair_feasible_dag(
                        dag,
                        noise_in_g,
                        ms_g,
                        #[trigger] br_pareto@[a2],
                        #[trigger] ks_pareto@[b],
                    ) implies !improves_dag(
                    pair_complexity_dag(dag, input_lwe_dimension, br_pareto@[a2], ks_pareto@[b]),
                    pair_p_dag(dag, noise_in_g, ms_g, br_pareto@[a2], ks_pareto@[b]) as int,
                    state.best_solution,
                ) by {
                    if a2 >= a {
                        if a2 > a {
                            assert(br_pareto@[a as int].complexity < br_pareto@[a2].complexity);
                        }
                        dag.law_complexity_linear(
                            input_lwe_dimension,
                            (br_pareto@[a2].complexity + ks_pareto@[b].complexity) as u128,
                        );
                        let lut_sum = br_pareto@[a2].complexity + ks_pareto@[b].complexity;
                        assert((lut_sum as u128) as int == lut_sum);
                        assert(br_quantity.complexity <= lut_sum);
                        assert(dag.spec_nb_luts() * (br_quantity.complexity as int)
                            <= dag.spec_nb_luts() * lut_sum) by (nonlinear_arith)
                            requires
                                dag.spec_nb_luts() >= 0,
                                br_quantity.complexity as int <= lut_sum,
                        ;
                        assert(pair_complexity_dag(
                            dag,
                            input_lwe_dimension,
                            br_pareto@[a2],
                            ks_pareto@[b],
                        ) >= complexity);
                    }
                }
            }
            cut = true;
            continue;
        }
        // Backward scan of the key-switch front, from the resumable cursor.
        let ghost start_cursor = i_current_max_ks as int;
        let mut b_plus: usize = i_current_max_ks + 1;
        let mut row_done: bool = false;
        while b_plus > 0 && !row_done
            invariant
                b_plus <= start_cursor + 1,
                !row_done ==> i_current_max_ks as int == start_cursor,
                i_current_max_ks < ks_pareto@.len(),
                state.count_domain == old(state).count_domain,
                best_tracked_dag(state.best_solution, best_complexity, best_p_error),
                state.best_solution is Some ==> state.best_solution.unwrap().complexity
                    < u128::MAX,
                state_progress_dag(
                    oracle,
                    dag,
                    config,
                    g,
                    lp,
                    internal_dim,
                    old(state).best_solution,
                    state.best_solution,
                ),
                pairs_handled_dag(
                    dag,
                    input_lwe_dimension,
                    noise_in_g,
                    ms_g,
                    br_pareto@,
                    ks_pareto@,
                    a as int,
                    state.best_solution,
                ),
                cursor_sound_dag(
                    dag,
                    noise_in_g,
                    ms_g,
                    br_pareto@,
                    ks_pareto@,
                    a as int,
                    start_cursor,
                ),
                forall|b2: int|
                    b_plus <= b2 <= start_cursor && pair_feasible_dag(
                        dag,
                        noise_in_g,
                        ms_g,
                        br_pareto@[a as int],
                        #[trigger] ks_pareto@[b2],
                    ) ==> !improves_dag(
                        pair_complexity_dag(
                            dag,
                            input_lwe_dimension,
                            br_pareto@[a as int],
                            ks_pareto@[b2],
                        ),
                        pair_p_dag(
                            dag,
                            noise_in_g,
                            ms_g,
                            br_pareto@[a as int],
                            ks_pareto@[b2],
                        ) as int,
                        state.best_solution,
                    ),
                !row_done ==> forall|b2: int|
                    b_plus <= b2 <= start_cursor ==> pair_feasible_dag(
                        dag,
                        noise_in_g,
                        ms_g,
                        br_pareto@[a as int],
                        #[trigger] ks_pareto@[b2],
                    ),
                row_done ==> forall|b2: int|
                    0 <= b2 < b_plus ==> !pair_feasible_dag(
                        dag,
                        noise_in_g,
                        ms_g,
                        br_pareto@[a as int],
                        #[trigger] ks_pareto@[b2],
                    ),
                row_done ==> forall|b2: int|
                    i_current_max_ks < b2 <= start_cursor ==> pair_feasible_dag(
                        dag,
                        noise_in_g,
                        ms_g,
                        br_pareto@[a as int],
                        #[trigger] ks_pareto@[b2],
                    ),
            decreases b_plus, if row_done { 0int } else { 1int },
        {
            b_plus -= 1;
            let i_ks_pareto = b_plus;
            let ks_quantity = ks_pareto[i_ks_pareto];
            proof {
                assert(crate::pareto::ks_entry_ok(
                    oracle,
                    config,
                    input_lwe_dimension,
                    internal_dim,
                    ks_cut_complexity,
                    ks_cut_noise,
                    ks_pareto@[i_ks_pareto as int],
                ));
            }
            let not_feasible = !dag.feasible(
                input_noise_out,
                br_quantity.noise,
                ks_quantity.noise,
                noise_modulus_switching,
            );
            if not_feasible {
                proof {
                    assert forall|b2: int|
                        0 <= b2 <= i_ks_pareto implies !pair_feasible_dag(
                        dag,
                        noise_in_g,
                        ms_g,
                        br_pareto@[a as int],
                        ks_pareto@[b2],
                    ) by {
                        if pair_feasible_dag(
                            dag,
                            noise_in_g,
                            ms_g,
                            br_pareto@[a as int],
                            ks_pareto@[b2],
                        ) {
                            if b2 < i_ks_pareto {
                                assert(ks_pareto@[b2].noise
                                    > ks_pareto@[i_ks_pareto as int].noise);
                            }
                            dag.law_feasible_antitone(
                                noise_in_g,
                                br_quantity.noise,
                                ks_quantity.noise,
                                ms_g,
                                noise_in_g,
                                br_quantity.noise,
                                ks_pareto@[b2].noise,
                                ms_g,
                            );
                            assert(false);
                        }
                    }
                }
                i_current_max_ks = if i_ks_pareto + 1 <= i_max_ks {
                    i_ks_pareto + 1
                } else {
                    i_max_ks
                };
                b_plus += 1;
                row_done = true;
                continue;
            }
            let one_lut_cost: u128 = ks_quantity.complexity as u128 + br_quantity.complexity as u128;
            let complexity: u128 = dag.complexity_cost(input_lwe_dimension, one_lut_cost);
            proof {
                dag.law_complexity_linear(input_lwe_dimension, one_lut_cost);
                vstd::arithmetic::mul::lemma_mul_upper_bound(
                    dag.spec_nb_luts() as int,
                    0x1_0000_0000,
                    one_lut_cost as int,
                    0x2_0000_0000_0000_0000,
                );
                assert(complexity as int == pair_complexity_dag(
                    dag,
                    input_lwe_dimension,
                    br_pareto@[a as int],
                    ks_pareto@[i_ks_pareto as int],
                ));
            }
            if complexity > best_complexity {
                // Feasible but over the incumbent: a deeper (cheaper)
                // key-switch entry may still fit.
                continue;
            }
            let peek = dag.peek_p_error(
                input_noise_out,
                br_quantity.noise,
                ks_quantity.noise,
                noise_modulus_switching,
            );
            let peek_p_error = peek.0;
            let variance = peek.1;
            if complexity == best_complexity && peek_p_error >= best_p_error {
                continue;
            }
            // The complexity is either better or equivalent with fewer
            // errors.
            let global_p_error = dag.global_p_error(
                input_noise_out,
                br_quantity.noise,
                ks_quantity.noise,
                noise_modulus_switching,
            );
            let i_br_pool = br_quantity.index;
            let i_ks_pool = ks_quantity.index;
            let br_d = config.br_decompositions[i_br_pool];
            let ks_d = config.ks_decompositions[i_ks_pool];
            let ghost prior_best = state.best_solution;
            let sol = Solution {
                input_lwe_dimension,
                internal_ks_output_lwe_dimension: internal_dim,
                ks_decomposition_level_count: ks_d.level,
                ks_decomposition_base_log: ks_d.log2_base,
                glwe_polynomial_size: glwe_poly_size,
                glwe_dimension: glwe_params.glwe_dimension,
                br_decomposition_level_count: br_d.level,
                br_decomposition_base_log: br_d.log2_base,
                complexity,
                noise_max: variance,
                p_error: peek_p_error,
                global_p_error: Some(global_p_error),
            };
            best_complexity = complexity;
            best_p_error = peek_p_error;
            state.best_solution = Some(sol);
            proof {
                assert(sol.complexity < u128::MAX);
                assert(improves_dag(sol.complexity as int, sol.p_error as int, prior_best));
                assert(solution_matches_dag(
                    oracle,
                    dag,
                    config,
                    g,
                    lp,
                    internal_dim,
                    i_br_pool as int,
                    i_ks_pool as int,
                    sol,
                ));
                if prior_best != old(state).best_solution {
                    let s_mid = prior_best.unwrap();
                    assert(improves_dag(
                        s_mid.complexity as int,
                        s_mid.p_error as int,
                        old(state).best_solution,
                    ));
                }
                assert(improves_dag(
                    sol.complexity as int,
                    sol.p_error as int,
                    old(state).best_solution,
                ));
                assert forall|a2: int, b2: int|
                    0 <= a2 < a && 0 <= b2 < ks_pareto@.len() && pair_feasible_dag(
                        dag,
                        noise_in_g,
                        ms_g,
                        #[trigger] br_pareto@[a2],
                        #[trigger] ks_pareto@[b2],
                    ) implies !improves_dag(
                    pair_complexity_dag(dag, input_lwe_dimension, br_pareto@[a2], ks_pareto@[b2]),
                    pair_p_dag(dag, noise_in_g, ms_g, br_pareto@[a2], ks_pareto@[b2]) as int,
                    state.best_solution,
                ) by {
                    lemma_not_improves_dag_preserved(
                        pair_complexity_dag(
                            dag,
                            input_lwe_dimension,
                            br_pareto@[a2],
                            ks_pareto@[b2],
                        ),
                        pair_p_dag(dag, noise_in_g, ms_g, br_pareto@[a2], ks_pareto@[b2]) as int,
                        prior_best,
                        sol,
                    );
                }
                assert forall|b2: int|
                    b_plus + 1 <= b2 <= start_cursor && pair_feasible_dag(
                        dag,
                        noise_in_g,
                        ms_g,
                        br_pareto@[a as int],
                        #[trigger] ks_pareto@[b2],
                    ) implies !improves_dag(
                    pair_complexity_dag(
                        dag,
                        input_lwe_dimension,
                        br_pareto@[a as int],
                        ks_pareto@[b2],
                    ),
                    pair_p_dag(dag, noise_in_g, ms_g, br_pareto@[a as int], ks_pareto@[b2]) as int,
                    state.best_solution,
                ) by {
                    lemma_not_improves_dag_preserved(
                        pair_complexity_dag(
                            dag,
                            input_lwe_dimension,
                            br_pareto@[a as int],
                            ks_pareto@[b2],
                        ),
                        pair_p_dag(dag, noise_in_g, ms_g, br_pareto@[a as int], ks_pareto@[b2])
                            as int,
                        prior_best,
                        sol,
                    );
                }
            }
        }
        // Row `a` is fully handled.
        proof {
            assert forall|a2: int, b: int|
                0 <= a2 < a + 1 && 0 <= b < ks_pareto@.len() && pair_feasible_dag(
                    dag,
                    noise_in_g,
                    ms_g,
                    #[trigger] br_pareto@[a2],
                    #[trigger] ks_pareto@[b],
                ) implies !improves_dag(
                pair_complexity_dag(dag, input_lwe_dimension, br_pareto@[a2], ks_pareto@[b]),
                pair_p_dag(dag, noise_in_g, ms_g, br_pareto@[a2], ks_pareto@[b]) as int,
                state.best_solution,
            ) by {
                if a2 == a && b > start_cursor {
                    let a0 = choose|a0: int|
                        0 <= a0 < a && pair_feasible_dag(
                            dag,
                            noise_in_g,
                            ms_g,
                            #[trigger] br_pareto@[a0],
                            #[trigger] ks_pareto@[b],
                        );
                    assert(!improves_dag(
                        pair_complexity_dag(dag, input_lwe_dimension, br_pareto@[a0], ks_pareto@[b]),
                        pair_p_dag(dag, noise_in_g, ms_g, br_pareto@[a0], ks_pareto@[b]) as int,
                        state.best_solution,
                    ));
                    assert(br_pareto@[a0].complexity < br_pareto@[a as int].complexity);
                    dag.law_complexity_linear(
                        input_lwe_dimension,
                        (br_pareto@[a0].complexity + ks_pareto@[b].complexity) as u128,
                    );
                    dag.law_complexity_linear(
                        input_lwe_dimension,
                        (br_pareto@[a as int].complexity + ks_pareto@[b].complexity) as u128,
                    );
                    let nb = dag.spec_nb_luts() as int;
                    if nb == 0 {
                        // Without bootstraps the cost is constant and the
                        // failure probability ignores both fronts.
                        dag.law_no_luts_independent(
                            noise_in_g,
                            br_pareto@[a0].noise,
                            ks_pareto@[b].noise,
                            ms_g,
                        );
                        dag.law_no_luts_independent(
                            noise_in_g,
                            br_pareto@[a as int].noise,
                            ks_pareto@[b].noise,
                            ms_g,
                        );
                        assert(pair_p_dag(dag, noise_in_g, ms_g, br_pareto@[a as int], ks_pareto@[b])
                            == pair_p_dag(dag, noise_in_g, ms_g, br_pareto@[a0], ks_pareto@[b]));
                        assert(pair_complexity_dag(
                            dag,
                            input_lwe_dimension,
                            br_pareto@[a as int],
                            ks_pareto@[b],
                        ) == pair_complexity_dag(
                            dag,
                            input_lwe_dimension,
                            br_pareto@[a0],
                            ks_pareto@[b],
                        ));
                    } else {
                        // With bootstraps the cost strictly grows with the
                        // blind-rotate cost, which already rules the pair out.
                        let sum0 = br_pareto@[a0].complexity + ks_pareto@[b].complexity;
                        let sum1 = br_pareto@[a as int].complexity + ks_pareto@[b].complexity;
                        assert((sum0 as u128) as int == sum0);
                        assert((sum1 as u128) as int == sum1);
                        assert(nb * sum0 < nb * sum1) by (nonlinear_arith)
                            requires
                                nb >= 1,
                                sum0 < sum1,
                        ;
                        assert(pair_complexity_dag(
                            dag,
                            input_lwe_dimension,
                            br_pareto@[a0],
                            ks_pareto@[b],
                        ) == dag.spec_complexity_cost(input_lwe_dimension, sum0 as u128) as int);
                        assert(pair_complexity_dag(
                            dag,
                            input_lwe_dimension,
                            br_pareto@[a as int],
                            ks_pareto@[b],
                        ) == dag.spec_complexity_cost(input_lwe_dimension, sum1 as u128) as int);
                        assert(pair_complexity_dag(
                            dag,
                            input_lwe_dimension,
                            br_pareto@[a0],
                            ks_pareto@[b],
                        ) < pair_complexity_dag(
                            dag,
                            input_lwe_dimension,
                            br_pareto@[a as int],
                            ks_pareto@[b],
                        ));
                    }
                }
            }
            assert forall|b: int|
                i_current_max_ks < b < ks_pareto@.len() implies exists|a0: int|
                0 <= a0 < a + 1 && pair_feasible_dag(
                    dag,
                    noise_in_g,
                    ms_g,
                    #[trigger] br_pareto@[a0],
                    #[trigger] ks_pareto@[b],
                ) by {
                if b <= start_cursor {
                    assert(pair_feasible_dag(
                        dag,
                        noise_in_g,
                        ms_g,
                        br_pareto@[a as int],
                        ks_pareto@[b],
                    ));
                } else {
                    let a0 = choose|a0: int|
                        0 <= a0 < a && pair_feasible_dag(
                            dag,
                            noise_in_g,
                            ms_g,
                            #[trigger] br_pareto@[a0],
                            #[trigger] ks_pareto@[b],
                        );
                    assert(0 <= a0 < a + 1 && pair_feasible_dag(
                        dag,
                        noise_in_g,
                        ms_g,
                        br_pareto@[a0],
                        ks_pareto@[b],
                    ));
                }
            }
        }
        a += 1;
    }
    proof {
        if state.best_solution is Some && state.best_solution != old(state).best_solution {
            assert(state.best_solution.unwrap().complexity <= best0_complexity_g);
        }
        lemma_point_optimal_dag_from_lists(
            oracle,
            dag,
            config,
            g,
            lp,
            internal_dim,
            br_pareto@,
            ks_pareto@,
            br_cut_complexity,
            br_cut_noise,
            ks_cut_complexity,
            ks_cut_noise,
            cut_noise_base,
            worst_input_ks_noise,
            best0_complexity_g,
            state.best_solution,
        );
    }
}

/// Optimize a whole circuit: enumerate the outer search space, breaking out
/// of the internal-dimension axis as soon as the modulus-switching noise
/// alone is infeasible (it only grows along that axis), and stopping at the
/// first solution when the circuit has no bootstrap (every parameter choice
/// then costs the same).
///
/// With at least one bootstrap, no feasible candidate of the space improves
/// on the returned solution; with none, the returned solution is still a real
/// feasible candidate.  An absent solution always means no feasible candidate
/// exists.
#[verifier::loop_isolation(false)]
#[verifier::rlimit(60)]
pub fn optimize<O: Oracle, D: AnalyzedDag>(
    dag: &D,
    oracle: &O,
    config: &Config,
    search_space: &SearchSpace,
) -> (state: OptimizationState)
    requires
        crate::oracle::br_pool_sorted(
            oracle,
            config.br_decompositions@,
            config.ciphertext_modulus_log,
        ),
        crate::oracle::ks_pool_sorted(
            oracle,
            config.ks_decompositions@,
            config.ciphertext_modulus_log,
        ),
        forall|i: int, j: int|
            0 <= i <= j < search_space.internal_lwe_dimensions@.len()
                ==> #[trigger] search_space.internal_lwe_dimensions@[i]
                <= #[trigger] search_space.internal_lwe_dimensions@[j],
        forall|i: int|
            0 <= i < search_space.glwe_log_polynomial_sizes@.len() ==> 8
                <= #[trigger] search_space.glwe_log_polynomial_sizes@[i] < 18,
        forall|gi: int, pi: int|
            0 <= gi < search_space.glwe_dimensions@.len() && 0 <= pi
                < search_space.glwe_log_polynomial_sizes@.len() ==> #[trigger] spec_input_dim(
                search_space.glwe_dimensions@[gi],
                search_space.glwe_log_polynomial_sizes@[pi],
            ) <= u64::MAX,
        search_space.glwe_dimensions@.len() * search_space.glwe_log_polynomial_sizes@.len()
            <= usize::MAX,
        search_space.glwe_dimensions@.len() * search_space.glwe_log_polynomial_sizes@.len()
            * search_space.internal_lwe_dimensions@.len() <= usize::MAX,
        search_space.glwe_dimensions@.len() * search_space.glwe_log_polynomial_sizes@.len()
            * search_space.internal_lwe_dimensions@.len() * config.ks_decompositions@.len()
            <= usize::MAX,
        search_space.glwe_dimensions@.len() * search_space.glwe_log_polynomial_sizes@.len()
            * search_space.internal_lwe_dimensions@.len() * config.ks_decompositions@.len()
            * config.br_decompositions@.len() <= usize::MAX,
    ensures
        state.count_domain == search_space.glwe_dimensions@.len()
            * search_space.glwe_log_polynomial_sizes@.len()
            * search_space.internal_lwe_dimensions@.len() * config.ks_decompositions@.len()
            * config.br_decompositions@.len(),
        state.best_solution is None ==> searched_optimal_dag(
            oracle,
            dag,
            config,
            search_space,
            Option::None,
        ),
        dag.spec_nb_luts() > 0 ==> searched_optimal_dag(
            oracle,
            dag,
            config,
            search_space,
            state.best_solution,
        ),
        state.best_solution is Some ==> solution_attained_dag(
            oracle,
            dag,
            config,
            search_space,
            state.best_solution.unwrap(),
        ),
        state.best_solution is Some ==> {
            let s = state.best_solution.unwrap();
            &&& s.global_p_error is Some
            &&& s.p_error <= s.global_p_error.unwrap()
            &&& s.global_p_error.unwrap() <= crate::oracle::PROB_ONE
            &&& s.p_error <= dag.spec_max_error_probability()
        },
{
    let safe_variance = dag.safe_variance();
    let consts = OptimizationDecompositionsConsts {
        config,
        sum_size: 0,
        noise_factor: 1,
        safe_variance,
    };
    let count_domain: usize = search_space.glwe_dimensions.len()
        * search_space.glwe_log_polynomial_sizes.len()
        * search_space.internal_lwe_dimensions.len() * config.ks_decompositions.len()
        * config.br_decompositions.len();
    let mut state = OptimizationState { best_solution: None, count_domain };
    let nb_luts = dag.nb_luts();
    let mut gi: usize = 0;
    while gi < search_space.glwe_dimensions.len()
        invariant
            gi <= search_space.glwe_dimensions@.len(),
            state.count_domain == count_domain,
            state.best_solution is Some ==> solution_attained_dag(
                oracle,
                dag,
                config,
                search_space,
                state.best_solution.unwrap(),
            ),
            state.best_solution is Some ==> state.best_solution.unwrap().complexity < u128::MAX,
            forall|gi2: int, pi2: int, ni2: int|
                0 <= gi2 < gi && 0 <= pi2 < search_space.glwe_log_polynomial_sizes@.len() && 0
                    <= ni2 < search_space.internal_lwe_dimensions@.len()
                    ==> #[trigger] point_optimal_dag(
                    oracle,
                    dag,
                    config,
                    search_space.glwe_dimensions@[gi2],
                    search_space.glwe_log_polynomial_sizes@[pi2],
                    search_space.internal_lwe_dimensions@[ni2],
                    state.best_solution,
                ),
        decreases search_space.glwe_dimensions@.len() - gi,
    {
        let glwe_dim = search_space.glwe_dimensions[gi];
        let mut pi: usize = 0;
        while pi < search_space.glwe_log_polynomial_sizes.len()
            invariant
                pi <= search_space.glwe_log_polynomial_sizes@.len(),
                state.count_domain == count_domain,
                state.best_solution is Some ==> solution_attained_dag(
                    oracle,
                    dag,
                    config,
                    search_space,
                    state.best_solution.unwrap(),
                ),
                state.best_solution is Some ==> state.best_solution.unwrap().complexity
                    < u128::MAX,
                forall|gi2: int, pi2: int, ni2: int|
                    0 <= gi2 < gi && 0 <= pi2 < search_space.glwe_log_polynomial_sizes@.len() && 0
                        <= ni2 < search_space.internal_lwe_dimensions@.len()
                        ==> #[trigger] point_optimal_dag(
                        oracle,
                        dag,
                        config,
                        search_space.glwe_dimensions@[gi2],
                        search_space.glwe_log_polynomial_sizes@[pi2],
                        search_space.internal_lwe_dimensions@[ni2],
                        state.best_solution,
                    ),
                forall|pi2: int, ni2: int|
                    0 <= pi2 < pi && 0 <= ni2 < search_space.internal_lwe_dimensions@.len()
                        ==> #[trigger] point_optimal_dag(
                        oracle,
                        dag,
                        config,
                        glwe_dim,
                        search_space.glwe_log_polynomial_sizes@[pi2],
                        search_space.internal_lwe_dimensions@[ni2],
                        state.best_solution,
                    ),
            decreases search_space.glwe_log_polynomial_sizes@.len() - pi,
        {
            let glwe_log_poly_size = search_space.glwe_log_polynomial_sizes[pi];
            let glwe_poly_size = 1u64 << glwe_log_poly_size;
            let glwe_params = GlweParameters {
                log2_polynomial_size: glwe_log_poly_size,
                glwe_dimension: glwe_dim,
            };
            let mut ni: usize = 0;
            while ni < search_space.internal_lwe_dimensions.len()
                invariant
                    ni <= search_space.internal_lwe_dimensions@.len(),
                    state.count_domain == count_domain,
                    state.best_solution is Some ==> solution_attained_dag(
                        oracle,
                        dag,
                        config,
                        search_space,
                        state.best_solution.unwrap(),
                    ),
                    state.best_solution is Some ==> state.best_solution.unwrap().complexity
                        < u128::MAX,
                    forall|gi2: int, pi2: int, ni2: int|
                        0 <= gi2 < gi && 0 <= pi2 < search_space.glwe_log_polynomial_sizes@.len()
                            && 0 <= ni2 < search_space.internal_lwe_dimensions@.len()
                            ==> #[trigger] point_optimal_dag(
                            oracle,
                            dag,
                            config,
                            search_space.glwe_dimensions@[gi2],
                            search_space.glwe_log_polynomial_sizes@[pi2],
                            search_space.internal_lwe_dimensions@[ni2],
                            state.best_solution,
                        ),
                    forall|pi2: int, ni2: int|
                        0 <= pi2 < pi && 0 <= ni2 < search_space.internal_lwe_dimensions@.len()
                            ==> #[trigger] point_optimal_dag(
                            oracle,
                            dag,
                            config,
                            glwe_dim,
                            search_space.glwe_log_polynomial_sizes@[pi2],
                            search_space.internal_lwe_dimensions@[ni2],
                            state.best_solution,
                        ),
                    forall|ni2: int|
                        0 <= ni2 < ni ==> #[trigger] point_optimal_dag(
                            oracle,
                            dag,
                            config,
                            glwe_dim,
                            glwe_log_poly_size,
                            search_space.internal_lwe_dimensions@[ni2],
                            state.best_solution,
                        ),
                decreases search_space.internal_lwe_dimensions@.len() - ni,
            {
                let internal_dim = search_space.internal_lwe_dimensions[ni];
                let noise_modulus_switching = oracle.modulus_switching_noise(
                    internal_dim,
                    glwe_poly_size,
                    config.ciphertext_modulus_log,
                );
                if !dag.feasible(0, 0, 0, noise_modulus_switching) {
                    // Modulus-switching noise only grows with the internal
                    // dimension: the rest of this axis is infeasible too.
                    proof {
                        assert forall|ni2: int|
                            ni <= ni2 < search_space.internal_lwe_dimensions@.len()
                                implies #[trigger] point_optimal_dag(
                            oracle,
                            dag,
                            config,
                            glwe_dim,
                            glwe_log_poly_size,
                            search_space.internal_lwe_dimensions@[ni2],
                            state.best_solution,
                        ) by {
                            let n2 = search_space.internal_lwe_dimensions@[ni2];
                            oracle.law_modulus_switching_noise_monotonic(
                                internal_dim,
                                n2,
                                glwe_poly_size,
                                config.ciphertext_modulus_log,
                            );
                            assert forall|i_br: int, i_ks: int|
                                0 <= i_br < config.br_decompositions@.len() && 0 <= i_ks
                                    < config.ks_decompositions@.len() && #[trigger] dag_feasible(
                                    oracle,
                                    dag,
                                    config,
                                    glwe_dim,
                                    glwe_log_poly_size,
                                    n2,
                                    i_br,
                                    i_ks,
                                ) implies !improves_dag(
                                dag_complexity(
                                    oracle,
                                    dag,
                                    config,
                                    glwe_dim,
                                    glwe_log_poly_size,
                                    n2,
                                    i_br,
                                    i_ks,
                                ),
                                dag_p_error(
                                    oracle,
                                    dag,
                                    config,
                                    glwe_dim,
                                    glwe_log_poly_size,
                                    n2,
                                    i_br,
                                    i_ks,
                                ) as int,
                                state.best_solution,
                            ) by {
                                dag.law_feasible_antitone(
                                    0,
                                    0,
                                    0,
                                    dag_ms_noise(oracle, config, glwe_log_poly_size, n2),
                                    dag_input_noise(oracle, config, glwe_dim, glwe_log_poly_size),
                                    br_noise_at(
                                        oracle,
                                        config,
                                        n2,
                                        glwe_of(glwe_dim, glwe_log_poly_size),
                                        i_br,
                                    ),
                                    ks_noise_at(
                                        oracle,
                                        config,
                                        spec_input_dim64(glwe_dim, glwe_log_poly_size),
                                        n2,
                                        i_ks,
                                    ),
                                    dag_ms_noise(oracle, config, glwe_log_poly_size, n2),
                                );
                                dag.law_feasible_antitone(
                                    0,
                                    0,
                                    0,
                                    noise_modulus_switching,
                                    0,
                                    0,
                                    0,
                                    dag_ms_noise(oracle, config, glwe_log_poly_size, n2),
                                );
                                assert(false);
                            }
                        }
                    }
                    ni = search_space.internal_lwe_dimensions.len();
                    continue;
                }
                let ghost pre_best = state.best_solution;
                update_best_solution_with_best_decompositions(
                    &mut state,
                    oracle,
                    &consts,
                    dag,
                    internal_dim,
                    glwe_params,
                    noise_modulus_switching,
                );
                proof {
                    if state.best_solution != pre_best {
                        let s = state.best_solution.unwrap();
                        let (i_br, i_ks) = choose|i_br: int, i_ks: int|
                            #[trigger] solution_matches_dag(
                                oracle,
                                dag,
                                config,
                                glwe_dim,
                                glwe_log_poly_size,
                                internal_dim,
                                i_br,
                                i_ks,
                                s,
                            );
                        assert(0 <= gi < search_space.glwe_dimensions@.len() && 0 <= pi
                            < search_space.glwe_log_polynomial_sizes@.len() && 0 <= ni
                            < search_space.internal_lwe_dimensions@.len() && solution_matches_dag(
                            oracle,
                            dag,
                            config,
                            search_space.glwe_dimensions@[gi as int],
                            search_space.glwe_log_polynomial_sizes@[pi as int],
                            search_space.internal_lwe_dimensions@[ni as int],
                            i_br,
                            i_ks,
                            s,
                        ));
                        assert(solution_attained_dag(oracle, dag, config, search_space, s));
                        assert forall|gi2: int, pi2: int, ni2: int|
                            0 <= gi2 < gi && 0 <= pi2
                                < search_space.glwe_log_polynomial_sizes@.len() && 0 <= ni2
                                < search_space.internal_lwe_dimensions@.len()
                                implies #[trigger] point_optimal_dag(
                            oracle,
                            dag,
                            config,
                            search_space.glwe_dimensions@[gi2],
                            search_space.glwe_log_polynomial_sizes@[pi2],
                            search_space.internal_lwe_dimensions@[ni2],
                            state.best_solution,
                        ) by {
                            lemma_point_optimal_dag_preserved(
                                oracle,
                                dag,
                                config,
                                search_space.glwe_dimensions@[gi2],
                                search_space.glwe_log_polynomial_sizes@[pi2],
                                search_space.internal_lwe_dimensions@[ni2],
                                pre_best,
                                state.best_solution,
                            );
                        }
                        assert forall|pi2: int, ni2: int|
                            0 <= pi2 < pi && 0 <= ni2 < search_space.internal_lwe_dimensions@.len()
                                implies #[trigger] point_optimal_dag(
                            oracle,
                            dag,
                            config,
                            glwe_dim,
                            search_space.glwe_log_polynomial_sizes@[pi2],
                            search_space.internal_lwe_dimensions@[ni2],
                            state.best_solution,
                        ) by {
                            lemma_point_optimal_dag_preserved(
                                oracle,
                                dag,
                                config,
                                glwe_dim,
                                search_space.glwe_log_polynomial_sizes@[pi2],
                                search_space.internal_lwe_dimensions@[ni2],
                                pre_best,
                                state.best_solution,
                            );
                        }
                        assert forall|ni2: int| 0 <= ni2 < ni implies #[trigger] point_optimal_dag(
                            oracle,
                            dag,
                            config,
                            glwe_dim,
                            glwe_log_poly_size,
                            search_space.internal_lwe_dimensions@[ni2],
                            state.best_solution,
                        ) by {
                            lemma_point_optimal_dag_preserved(
                                oracle,
                                dag,
                                config,
                                glwe_dim,
                                glwe_log_poly_size,
                                search_space.internal_lwe_dimensions@[ni2],
                                pre_best,
                                state.best_solution,
                            );
                        }
                    }
                }
                if nb_luts == 0 {
                    // Without bootstraps every parameter choice costs the
                    // same: the first feasible point is the answer.
                    let got_solution = match &state.best_solution {
                        Option::Some(_) => true,
                        Option::None => false,
                    };
                    if got_solution {
                        proof {
                            lemma_attained_dag_bounds(
                                oracle,
                                dag,
                                config,
                                search_space,
                                state.best_solution.unwrap(),
                            );
                        }
                        return state;
                    }
                }
                ni += 1;
            }
            pi += 1;
        }
        gi += 1;
    }
    proof {
        if state.best_solution is Some {
            lemma_attained_dag_bounds(
                oracle,
                dag,
                config,
                search_space,
                state.best_solution.unwrap(),
            );
        }
    }
    state
}

/// The synthetic circuit [`optimize_v0`] runs the circuit search on.
pub open spec fn v0_dag_of<'a, O: Oracle>(
    oracle: &'a O,
    config: &Config,
    sum_size: u64,
    noise_factor: u64,
    precision: u64,
) -> crate::v0_dag::V0Dag<'a, O> {
    crate::v0_dag::V0Dag {
        oracle,
        sum_size: sum_size as u32,
        noise_factor: noise_factor as u32,
        safe_variance: oracle.spec_safe_variance_bound(
            precision,
            config.ciphertext_modulus_log,
            config.maximum_acceptable_error_probability,
        ),
        max_error_probability: config.maximum_acceptable_error_probability,
    }
}

/// Cross-check entry point: build the synthetic two-bootstrap circuit that is
/// equivalent to one atomic pattern, run the circuit search on it, and halve
/// the reported cost to get the per-pattern cost.
pub fn optimize_v0<O: Oracle>(
    oracle: &O,
    sum_size: u64,
    precision: u64,
    config: &Config,
    noise_factor: u64,
    search_space: &SearchSpace,
) -> (state: OptimizationState)
    requires
        0 < precision <= 16,
        1 <= noise_factor <= 0x10_0000,
        sum_size <= 0xFFFF_FFFF,
        0 < config.maximum_acceptable_error_probability < crate::oracle::PROB_ONE,
        crate::oracle::br_pool_sorted(
            oracle,
            config.br_decompositions@,
            config.ciphertext_modulus_log,
        ),
        crate::oracle::ks_pool_sorted(
            oracle,
            config.ks_decompositions@,
            config.ciphertext_modulus_log,
        ),
        forall|i: int, j: int|
            0 <= i <= j < search_space.internal_lwe_dimensions@.len()
                ==> #[trigger] search_space.internal_lwe_dimensions@[i]
                <= #[trigger] search_space.internal_lwe_dimensions@[j],
        forall|i: int|
            0 <= i < search_space.glwe_log_polynomial_sizes@.len() ==> 8
                <= #[trigger] search_space.glwe_log_polynomial_sizes@[i] < 18,
        forall|gi: int, pi: int|
            0 <= gi < search_space.glwe_dimensions@.len() && 0 <= pi
                < search_space.glwe_log_polynomial_sizes@.len() ==> #[trigger] spec_input_dim(
                search_space.glwe_dimensions@[gi],
                search_space.glwe_log_polynomial_sizes@[pi],
            ) <= u64::MAX,
        search_space.glwe_dimensions@.len() * search_space.glwe_log_polynomial_sizes@.len()
            <= usize::MAX,
        search_space.glwe_dimensions@.len() * search_space.glwe_log_polynomial_sizes@.len()
            * search_space.internal_lwe_dimensions@.len() <= usize::MAX,
        search_space.glwe_dimensions@.len() * search_space.glwe_log_polynomial_sizes@.len()
            * search_space.internal_lwe_dimensions@.len() * config.ks_decompositions@.len()
            <= usize::MAX,
        search_space.glwe_dimensions@.len() * search_space.glwe_log_polynomial_sizes@.len()
            * search_space.internal_lwe_dimensions@.len() * config.ks_decompositions@.len()
            * config.br_decompositions@.len() <= usize::MAX,
    ensures
        state.count_domain == search_space.glwe_dimensions@.len()
            * search_space.glwe_log_polynomial_sizes@.len()
            * search_space.internal_lwe_dimensions@.len() * config.ks_decompositions@.len()
            * config.br_decompositions@.len(),
        state.best_solution is None ==> searched_optimal_dag(
            oracle,
            &v0_dag_of(oracle, config, sum_size, noise_factor, precision),
            config,
            search_space,
            Option::None,
        ),
        state.best_solution is Some ==> (exists|s0: Solution|
            {
                &&& #[trigger] searched_optimal_dag(
                    oracle,
                    &v0_dag_of(oracle, config, sum_size, noise_factor, precision),
                    config,
                    search_space,
                    Some(s0),
                )
                &&& solution_attained_dag(
                    oracle,
                    &v0_dag_of(oracle, config, sum_size, noise_factor, precision),
                    config,
                    search_space,
                    s0,
                )
                &&& s0.p_error <= config.maximum_acceptable_error_probability
                &&& s0.global_p_error is Some
                &&& s0.p_error <= s0.global_p_error.unwrap()
                &&& s0.global_p_error.unwrap() <= crate::oracle::PROB_ONE
                &&& state.best_solution.unwrap() == Solution {
                    complexity: s0.complexity / 2,
                    ..s0
                }
            }),
{
    let safe_variance = oracle.safe_variance_bound(
        precision,
        config.ciphertext_modulus_log,
        config.maximum_acceptable_error_probability,
    );
    let dag = crate::v0_dag::V0Dag {
        oracle,
        sum_size: sum_size as u32,
        noise_factor: noise_factor as u32,
        safe_variance,
        max_error_probability: config.maximum_acceptable_error_probability,
    };
    proof {
        assert(dag == v0_dag_of(oracle, config, sum_size, noise_factor, precision));
    }
    let mut state = optimize(&dag, oracle, config, search_space);
    // A solution's cost covers both bootstraps of the synthetic circuit:
    // halve it to report the per-pattern cost.
    let halved = match &state.best_solution {
        Option::Some(sol) => {
            let s = *sol;
            Some(Solution { complexity: s.complexity / 2, ..s })
        },
        Option::None => None,
    };
    let ghost full = state.best_solution;
    state.best_solution = halved;
    proof {
        if state.best_solution is Some {
            let s0 = full.unwrap();
            assert(searched_optimal_dag(
                oracle,
                &v0_dag_of(oracle, config, sum_size, noise_factor, precision),
                config,
                search_space,
                Some(s0),
            ) && solution_attained_dag(
                oracle,
                &v0_dag_of(oracle, config, sum_size, noise_factor, precision),
                config,
                search_space,
                s0,
            ) && s0.p_error <= config.maximum_acceptable_error_probability && s0.global_p_error
                is Some && s0.p_error <= s0.global_p_error.unwrap() && s0.global_p_error.unwrap()
                <= crate::oracle::PROB_ONE && state.best_solution.unwrap() == Solution {
                complexity: s0.complexity / 2,
                ..s0
            });
        }
    }
    state
}

} // verus!
