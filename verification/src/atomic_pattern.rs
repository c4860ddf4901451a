//! Optimization of a single atomic pattern
//! (dot-product, key-switch, programmable bootstrap).

use vstd::prelude::*;

use crate::oracle::Oracle;
use crate::parameters::{Config, GlweParameters, SearchSpace};
use crate::pareto::{
    br_complexity_at, br_noise_at, ks_complexity_at, ks_noise_at, ComplexityNoise,
};

verus! {

/// A full parameter assignment together with its observables.
///
/// `complexity` and `noise_max` are fixed-point magnitudes in the oracle's
/// scale; `p_error` and `global_p_error` are fixed-point probabilities
/// (fractions of [`crate::oracle::PROB_ONE`]).  `global_p_error` is only
/// meaningful for the circuit entry point and stays `None` otherwise.
#[derive(Clone, Copy, PartialEq, Eq, Structural, Debug)]
pub struct Solution {
    pub input_lwe_dimension: u64,
    pub internal_ks_output_lwe_dimension: u64,
    pub ks_decomposition_level_count: u64,
    pub ks_decomposition_base_log: u64,
    pub glwe_polynomial_size: u64,
    pub glwe_dimension: u64,
    pub br_decomposition_level_count: u64,
    pub br_decomposition_base_log: u64,
    pub complexity: u128,
    pub noise_max: u128,
    pub p_error: u64,
    pub global_p_error: Option<u64>,
}

/// Outcome of a search: the best solution found, if any, and the cardinality
/// of the enumerated domain (a diagnostic).
pub struct OptimizationState {
    pub best_solution: Option<Solution>,
    pub count_domain: usize,
}

/// Constants shared by every decomposition scan of one run.
pub struct OptimizationDecompositionsConsts<'a> {
    pub config: &'a Config,
    pub sum_size: u64,
    pub noise_factor: u64,
    pub safe_variance: u64,
}

/// Ring size of a log2 polynomial size.
pub open spec fn spec_poly_size(log2_polynomial_size: u64) -> u64 {
    1u64 << log2_polynomial_size
}

/// The GLWE record of one outer coordinate.
pub open spec fn glwe_of(glwe_dim: u64, log2_poly_size: u64) -> GlweParameters {
    GlweParameters { log2_polynomial_size: log2_poly_size, glwe_dimension: glwe_dim }
}

/// Input LWE dimension of one outer coordinate, as a mathematical integer.
pub open spec fn spec_input_dim(glwe_dim: u64, log2_poly_size: u64) -> int {
    glwe_dim * spec_poly_size(log2_poly_size)
}

/// Input LWE dimension of one outer coordinate, as a machine word (callers
/// keep it under `u64::MAX`).
pub open spec fn spec_input_dim64(glwe_dim: u64, log2_poly_size: u64) -> u64 {
    spec_input_dim(glwe_dim, log2_poly_size) as u64
}

/// Total cost of the atomic pattern at one candidate: the multisum, one
/// key-switch and one bootstrap.
pub open spec fn atomic_complexity<O: Oracle>(
    oracle: &O,
    consts: &OptimizationDecompositionsConsts,
    glwe_dim: u64,
    log2_poly_size: u64,
    internal_dim: u64,
    i_br: int,
    i_ks: int,
) -> int {
    consts.sum_size * spec_input_dim(glwe_dim, log2_poly_size) + br_complexity_at(
        oracle,
        consts.config,
        internal_dim,
        glwe_of(glwe_dim, log2_poly_size),
        i_br,
    ) + ks_complexity_at(
        oracle,
        consts.config,
        spec_input_dim64(glwe_dim, log2_poly_size),
        internal_dim,
        i_ks,
    )
}

/// Total output variance of the atomic pattern at one candidate: the
/// weighted bootstrap noise, the key-switch noise and the modulus-switching
/// noise.
pub open spec fn atomic_noise<O: Oracle>(
    oracle: &O,
    consts: &OptimizationDecompositionsConsts,
    glwe_dim: u64,
    log2_poly_size: u64,
    internal_dim: u64,
    i_br: int,
    i_ks: int,
) -> int {
    consts.noise_factor * consts.noise_factor * br_noise_at(
        oracle,
        consts.config,
        internal_dim,
        glwe_of(glwe_dim, log2_poly_size),
        i_br,
    ) + ks_noise_at(
        oracle,
        consts.config,
        spec_input_dim64(glwe_dim, log2_poly_size),
        internal_dim,
        i_ks,
    ) + oracle.spec_modulus_switching_noise(
        internal_dim,
        spec_poly_size(log2_poly_size),
        consts.config.ciphertext_modulus_log,
    )
}

/// The candidate keeps the total variance within the safe bound.
pub open spec fn atomic_feasible<O: Oracle>(
    oracle: &O,
    consts: &OptimizationDecompositionsConsts,
    glwe_dim: u64,
    log2_poly_size: u64,
    internal_dim: u64,
    i_br: int,
    i_ks: int,
) -> bool {
    atomic_noise(oracle, consts, glwe_dim, log2_poly_size, internal_dim, i_br, i_ks)
        <= consts.safe_variance
}

/// The lexicographic improvement rule of the atomic search: strictly cheaper,
/// or as cheap with strictly less noise.  Anything improves on no solution.
pub open spec fn improves_opt(complexity: int, noise: int, best: Option<Solution>) -> bool {
    match best {
        Option::None => true,
        Option::Some(s) => complexity < s.complexity || (complexity == s.complexity && noise
            < s.noise_max),
    }
}

/// `sol` is exactly the candidate of the atomic search at these coordinates:
/// every field carries the pool's parameters and the oracle's values, the
/// variance is feasible and the failure probability is the oracle's.
pub open spec fn solution_matches<O: Oracle>(
    oracle: &O,
    consts: &OptimizationDecompositionsConsts,
    glwe_dim: u64,
    log2_poly_size: u64,
    internal_dim: u64,
    i_br: int,
    i_ks: int,
    sol: Solution,
) -> bool {
    &&& 0 <= i_br < consts.config.br_decompositions@.len()
    &&& 0 <= i_ks < consts.config.ks_decompositions@.len()
    &&& sol.input_lwe_dimension == spec_input_dim(glwe_dim, log2_poly_size)
    &&& sol.internal_ks_output_lwe_dimension == internal_dim
    &&& sol.ks_decomposition_level_count == consts.config.ks_decompositions@[i_ks].level
    &&& sol.ks_decomposition_base_log == consts.config.ks_decompositions@[i_ks].log2_base
    &&& sol.glwe_polynomial_size == spec_poly_size(log2_poly_size)
    &&& sol.glwe_dimension == glwe_dim
    &&& sol.br_decomposition_level_count == consts.config.br_decompositions@[i_br].level
    &&& sol.br_decomposition_base_log == consts.config.br_decompositions@[i_br].log2_base
    &&& sol.complexity == atomic_complexity(
        oracle,
        consts,
        glwe_dim,
        log2_poly_size,
        internal_dim,
        i_br,
        i_ks,
    )
    &&& sol.noise_max == atomic_noise(
        oracle,
        consts,
        glwe_dim,
        log2_poly_size,
        internal_dim,
        i_br,
        i_ks,
    )
    &&& atomic_feasible(oracle, consts, glwe_dim, log2_poly_size, internal_dim, i_br, i_ks)
    &&& sol.p_error == oracle.spec_error_probability(
        consts.config.maximum_acceptable_error_probability,
        consts.safe_variance,
        sol.noise_max,
    )
    &&& sol.global_p_error is None
}

/// No feasible candidate of this outer coordinate improves on `best`.
pub open spec fn point_optimal<O: Oracle>(
    oracle: &O,
    consts: &OptimizationDecompositionsConsts,
    glwe_dim: u64,
    log2_poly_size: u64,
    internal_dim: u64,
    best: Option<Solution>,
) -> bool {
    forall|i_br: int, i_ks: int|
        0 <= i_br < consts.config.br_decompositions@.len() && 0 <= i_ks
            < consts.config.ks_decompositions@.len() && #[trigger] atomic_feasible(
            oracle,
            consts,
            glwe_dim,
            log2_poly_size,
            internal_dim,
            i_br,
            i_ks,
        ) ==> !improves_opt(
            atomic_complexity(
                oracle,
                consts,
                glwe_dim,
                log2_poly_size,
                internal_dim,
                i_br,
                i_ks,
            ),
            atomic_noise(oracle, consts, glwe_dim, log2_poly_size, internal_dim, i_br, i_ks),
            best,
        )
}

/// Cost of pairing two kept list entries with the fixed multisum.
pub open spec fn pair_complexity(multisum: int, e_br: ComplexityNoise, e_ks: ComplexityNoise) -> int {
    multisum + e_br.complexity + e_ks.complexity
}

/// Variance of pairing two kept list entries with the fixed weights and
/// modulus-switching noise.
pub open spec fn pair_noise(
    sq_noise_factor: int,
    noise_modulus_switching: int,
    e_br: ComplexityNoise,
    e_ks: ComplexityNoise,
) -> int {
    sq_noise_factor * e_br.noise + e_ks.noise + noise_modulus_switching
}

/// The pair of list entries keeps the variance within the safe bound.
pub open spec fn pair_feasible(
    sq_noise_factor: int,
    noise_modulus_switching: int,
    safe_variance: int,
    e_br: ComplexityNoise,
    e_ks: ComplexityNoise,
) -> bool {
    pair_noise(sq_noise_factor, noise_modulus_switching, e_br, e_ks) <= safe_variance
}

/// Every feasible pair of a scanned blind-rotate entry (position `< upto`)
/// with any key-switch entry fails to improve on `best`.
pub open spec fn pairs_handled(
    br_list: Seq<ComplexityNoise>,
    ks_list: Seq<ComplexityNoise>,
    upto: int,
    multisum: int,
    sq_noise_factor: int,
    noise_modulus_switching: int,
    safe_variance: int,
    best: Option<Solution>,
) -> bool {
    forall|a: int, b: int|
        0 <= a < upto && 0 <= b < ks_list.len() && pair_feasible(
            sq_noise_factor,
            noise_modulus_switching,
            safe_variance,
            #[trigger] br_list[a],
            #[trigger] ks_list[b],
        ) ==> !improves_opt(
            pair_complexity(multisum, br_list[a], ks_list[b]),
            pair_noise(sq_noise_factor, noise_modulus_switching, br_list[a], ks_list[b]),
            best,
        )
}

/// Everything the cross-Pareto cursor may skip is already accounted for:
/// above the cursor, every key-switch entry formed a feasible pair with some
/// already scanned blind-rotate entry.
pub open spec fn cursor_sound(
    br_list: Seq<ComplexityNoise>,
    ks_list: Seq<ComplexityNoise>,
    upto: int,
    cursor: int,
    sq_noise_factor: int,
    noise_modulus_switching: int,
    safe_variance: int,
) -> bool {
    forall|b: int|
        cursor < b < ks_list.len() ==> exists|a0: int|
            0 <= a0 < upto && pair_feasible(
                sq_noise_factor,
                noise_modulus_switching,
                safe_variance,
                #[trigger] br_list[a0],
                #[trigger] ks_list[b],
            )
}

/// How one combiner call may change the incumbent: keep it, or replace it by
/// a strictly improving candidate attained at this outer coordinate.
pub open spec fn state_progress<O: Oracle>(
    oracle: &O,
    consts: &OptimizationDecompositionsConsts,
    glwe_dim: u64,
    log2_poly_size: u64,
    internal_dim: u64,
    old_best: Option<Solution>,
    new_best: Option<Solution>,
) -> bool {
    &&& (old_best is Some ==> new_best is Some)
    &&& (new_best == old_best || (new_best is Some && improves_opt(
        new_best.unwrap().complexity as int,
        new_best.unwrap().noise_max as int,
        old_best,
    ) && exists|i_br: int, i_ks: int|
        #[trigger] solution_matches(
            oracle,
            consts,
            glwe_dim,
            log2_poly_size,
            internal_dim,
            i_br,
            i_ks,
            new_best.unwrap(),
        )))
}

/// The tracked running minima agree with the incumbent solution.
pub open spec fn best_tracked(best: Option<Solution>, best_complexity: u128, best_variance: u128) -> bool {
    match best {
        Option::None => best_complexity == u128::MAX && best_variance == u128::MAX,
        Option::Some(s) => s.complexity == best_complexity && s.noise_max == best_variance,
    }
}

/// The constants one atomic-pattern run derives from its arguments.
pub open spec fn run_consts<'a, O: Oracle>(
    oracle: &O,
    config: &'a Config,
    sum_size: u64,
    noise_factor: u64,
    precision: u64,
) -> OptimizationDecompositionsConsts<'a> {
    OptimizationDecompositionsConsts {
        config,
        sum_size,
        noise_factor,
        safe_variance: oracle.spec_safe_variance_bound(
            precision,
            config.ciphertext_modulus_log,
            config.maximum_acceptable_error_probability,
        ),
    }
}

/// The restart hint skips coordinates strictly below the hint on both axes.
pub open spec fn skip_coord(restart_at: Option<Solution>, glwe_dim: u64, log2_poly_size: u64) -> bool {
    match restart_at {
        Option::None => false,
        Option::Some(sol) => glwe_dim < sol.glwe_dimension && spec_poly_size(log2_poly_size)
            < sol.glwe_polynomial_size,
    }
}

/// The restart hint never skips the hint's own coordinates: the incumbent a
/// repeated search restarts from stays reachable.
pub proof fn lemma_restart_keeps_incumbent(sol: Solution, log2_poly_size: u64)
    ensures
        !skip_coord(Some(sol), sol.glwe_dimension, log2_poly_size),
{
}

/// No feasible candidate anywhere in the (non-skipped) search space improves
/// on `best`.
pub open spec fn searched_optimal<O: Oracle>(
    oracle: &O,
    consts: &OptimizationDecompositionsConsts,
    search_space: &SearchSpace,
    restart_at: Option<Solution>,
    best: Option<Solution>,
) -> bool {
    forall|gi: int, pi: int, ni: int|
        0 <= gi < search_space.glwe_dimensions@.len() && 0 <= pi
            < search_space.glwe_log_polynomial_sizes@.len() && 0 <= ni
            < search_space.internal_lwe_dimensions@.len() && !skip_coord(
            restart_at,
            search_space.glwe_dimensions@[gi],
            search_space.glwe_log_polynomial_sizes@[pi],
        ) ==> #[trigger] point_optimal(
            oracle,
            consts,
            search_space.glwe_dimensions@[gi],
            search_space.glwe_log_polynomial_sizes@[pi],
            search_space.internal_lwe_dimensions@[ni],
            best,
        )
}

/// `sol` is a real candidate of some coordinate of the search space.
pub open spec fn solution_attained<O: Oracle>(
    oracle: &O,
    consts: &OptimizationDecompositionsConsts,
    search_space: &SearchSpace,
    sol: Solution,
) -> bool {
    exists|gi: int, pi: int, ni: int, i_br: int, i_ks: int|
        0 <= gi < search_space.glwe_dimensions@.len() && 0 <= pi
            < search_space.glwe_log_polynomial_sizes@.len() && 0 <= ni
            < search_space.internal_lwe_dimensions@.len() && #[trigger] solution_matches(
            oracle,
            consts,
            search_space.glwe_dimensions@[gi],
            search_space.glwe_log_polynomial_sizes@[pi],
            search_space.internal_lwe_dimensions@[ni],
            i_br,
            i_ks,
            sol,
        )
}

/// A weakly dominated candidate improves whenever the dominating one does.
proof fn lemma_improves_monotonic(c1: int, v1: int, c2: int, v2: int, best: Option<Solution>)
    requires
        c1 <= c2,
        v1 <= v2,
        improves_opt(c2, v2, best),
    ensures
        improves_opt(c1, v1, best),
{
}

/// A candidate that failed to improve still fails after the incumbent
/// improved.
proof fn lemma_not_improves_preserved(c: int, v: int, best0: Option<Solution>, s1: Solution)
    requires
        !improves_opt(c, v, best0),
        improves_opt(s1.complexity as int, s1.noise_max as int, best0),
    ensures
        !improves_opt(c, v, Some(s1)),
{
}

/// The reduction from the two kept lists to the full pools: if every feasible
/// pair of kept entries fails to improve on `best`, then so does every
/// feasible pair of pool entries — entries outside the lists are over a
/// budget that already rules them out, or dominated by kept entries.
#[verifier::rlimit(30)]
proof fn lemma_point_optimal_from_lists<O: Oracle>(
    oracle: &O,
    consts: &OptimizationDecompositionsConsts,
    glwe_dim: u64,
    log2_poly_size: u64,
    internal_dim: u64,
    multisum: int,
    noise_ms: int,
    br_list: Seq<ComplexityNoise>,
    ks_list: Seq<ComplexityNoise>,
    cut_complexity_br: u128,
    cut_noise_br: u128,
    cut_complexity_ks: u128,
    cut_noise_ks: u128,
    best: Option<Solution>,
)
    requires
        1 <= consts.noise_factor,
        spec_input_dim(glwe_dim, log2_poly_size) <= u64::MAX,
        multisum == consts.sum_size * spec_input_dim(glwe_dim, log2_poly_size),
        noise_ms == oracle.spec_modulus_switching_noise(
            internal_dim,
            spec_poly_size(log2_poly_size),
            consts.config.ciphertext_modulus_log,
        ),
        noise_ms <= consts.safe_variance,
        cut_noise_br == consts.safe_variance - noise_ms,
        br_list.len() > 0,
        forall|k: int|
            0 <= k < br_list.len() ==> #[trigger] crate::pareto::br_entry_ok(
                oracle,
                consts.config,
                internal_dim,
                glwe_of(glwe_dim, log2_poly_size),
                cut_complexity_br,
                cut_noise_br,
                br_list[k],
            ),
        crate::pareto::pareto_shape(br_list),
        forall|i: int|
            0 <= i < consts.config.br_decompositions@.len() ==> #[trigger] crate::pareto::br_entry_covered(
                oracle,
                consts.config,
                internal_dim,
                glwe_of(glwe_dim, log2_poly_size),
                cut_complexity_br,
                cut_noise_br,
                true,
                br_list,
                i,
            ),
        forall|k: int|
            0 <= k < ks_list.len() ==> #[trigger] crate::pareto::ks_entry_ok(
                oracle,
                consts.config,
                spec_input_dim64(glwe_dim, log2_poly_size),
                internal_dim,
                cut_complexity_ks,
                cut_noise_ks,
                ks_list[k],
            ),
        crate::pareto::pareto_shape(ks_list),
        forall|j: int|
            0 <= j < consts.config.ks_decompositions@.len() ==> #[trigger] crate::pareto::ks_entry_covered(
                oracle,
                consts.config,
                spec_input_dim64(glwe_dim, log2_poly_size),
                internal_dim,
                cut_complexity_ks,
                cut_noise_ks,
                ks_list,
                j,
            ),
        cut_noise_ks == cut_noise_br - br_list[br_list.len() - 1].noise,
        cut_complexity_ks == cut_complexity_br - br_list[0].complexity,
        best is None ==> cut_complexity_br >= u64::MAX && cut_complexity_ks >= u64::MAX,
        best is Some ==> best.unwrap().complexity <= multisum + cut_complexity_br,
        pairs_handled(
            br_list,
            ks_list,
            br_list.len() as int,
            multisum,
            consts.noise_factor * consts.noise_factor,
            noise_ms,
            consts.safe_variance as int,
            best,
        ),
    ensures
        point_optimal(oracle, consts, glwe_dim, log2_poly_size, internal_dim, best),
{
    let glwe = glwe_of(glwe_dim, log2_poly_size);
    let input64 = spec_input_dim64(glwe_dim, log2_poly_size);
    let config = consts.config;
    let nf = consts.noise_factor as int;
    let sq = nf * nf;
    assert(nf * nf >= 1) by (nonlinear_arith)
        requires
            nf >= 1,
    ;
    assert forall|i_br: int, i_ks: int|
        0 <= i_br < config.br_decompositions@.len() && 0 <= i_ks < config.ks_decompositions@.len()
            && #[trigger] atomic_feasible(
            oracle,
            consts,
            glwe_dim,
            log2_poly_size,
            internal_dim,
            i_br,
            i_ks,
        ) implies !improves_opt(
        atomic_complexity(oracle, consts, glwe_dim, log2_poly_size, internal_dim, i_br, i_ks),
        atomic_noise(oracle, consts, glwe_dim, log2_poly_size, internal_dim, i_br, i_ks),
        best,
    ) by {
        let cost_i = br_complexity_at(oracle, config, internal_dim, glwe, i_br) as int;
        let noise_i = br_noise_at(oracle, config, internal_dim, glwe, i_br) as int;
        let cost_j = ks_complexity_at(oracle, config, input64, internal_dim, i_ks) as int;
        let noise_j = ks_noise_at(oracle, config, input64, internal_dim, i_ks) as int;
        let cand_c = multisum + cost_i + cost_j;
        let cand_v = sq * noise_i + noise_j + noise_ms;
        assert(atomic_complexity(oracle, consts, glwe_dim, log2_poly_size, internal_dim, i_br, i_ks)
            == cand_c);
        assert(atomic_noise(oracle, consts, glwe_dim, log2_poly_size, internal_dim, i_br, i_ks)
            == cand_v);
        assert(cand_v <= consts.safe_variance);
        assert(sq * noise_i >= noise_i) by (nonlinear_arith)
            requires
                sq >= 1,
                noise_i >= 0,
        ;
        if improves_opt(cand_c, cand_v, best) {
            // Step 1: replace the blind-rotate pool entry by a kept entry
            // that weakly dominates it.
            assert(crate::pareto::br_entry_covered(
                oracle,
                config,
                internal_dim,
                glwe,
                cut_complexity_br,
                cut_noise_br,
                true,
                br_list,
                i_br,
            ));
            if cost_i as u128 > cut_complexity_br {
                match best {
                    Option::None => {
                        assert(cost_i <= u64::MAX);
                        assert(false);
                    },
                    Option::Some(s) => {
                        assert(cand_c > multisum + cut_complexity_br);
                        assert(!improves_opt(cand_c, cand_v, best));
                        assert(false);
                    },
                }
            } else if noise_i as u128 > cut_noise_br {
                assert(cand_v >= noise_i + noise_ms);
                assert(cand_v > consts.safe_variance);
                assert(false);
            } else {
                let a = if exists|k: int|
                    0 <= k < br_list.len() && (#[trigger] br_list[k]).index == i_br {
                    choose|k: int| 0 <= k < br_list.len() && (#[trigger] br_list[k]).index == i_br
                } else {
                    choose|k: int|
                        0 <= k < br_list.len() && (#[trigger] br_list[k]).complexity
                            <= br_complexity_at(oracle, config, internal_dim, glwe, i_br)
                            && br_list[k].noise <= br_noise_at(
                            oracle,
                            config,
                            internal_dim,
                            glwe,
                            i_br,
                        )
                };
                assert(0 <= a < br_list.len());
                assert(crate::pareto::br_entry_ok(
                    oracle,
                    config,
                    internal_dim,
                    glwe,
                    cut_complexity_br,
                    cut_noise_br,
                    br_list[a],
                ));
                assert(br_list[a].complexity <= cost_i && br_list[a].noise <= noise_i);
                let e_a = br_list[a];
                // Step 2: replace the key-switch pool entry likewise.
                assert(crate::pareto::ks_entry_covered(
                    oracle,
                    config,
                    input64,
                    internal_dim,
                    cut_complexity_ks,
                    cut_noise_ks,
                    ks_list,
                    i_ks,
                ));
                if cost_j as u128 > cut_complexity_ks {
                    match best {
                        Option::None => {
                            assert(cost_j <= u64::MAX);
                            assert(false);
                        },
                        Option::Some(s) => {
                            if 0 < a {
                                assert(br_list[0].complexity < e_a.complexity);
                            }
                            assert(crate::pareto::br_entry_ok(
                                oracle,
                                config,
                                internal_dim,
                                glwe,
                                cut_complexity_br,
                                cut_noise_br,
                                br_list[0],
                            ));
                            assert(cost_i >= br_list[0].complexity);
                            assert(cand_c > multisum + br_list[0].complexity + cut_complexity_ks);
                            assert(cand_c > multisum + cut_complexity_br);
                            assert(!improves_opt(cand_c, cand_v, best));
                            assert(false);
                        },
                    }
                } else if noise_j as u128 > cut_noise_ks {
                    let last = br_list[br_list.len() - 1];
                    if a < br_list.len() - 1 {
                        assert(e_a.noise > last.noise);
                    }
                    assert(noise_i >= e_a.noise >= last.noise);
                    assert(cand_v >= noise_i + noise_j + noise_ms);
                    assert(cand_v > last.noise + cut_noise_ks + noise_ms);
                    assert(cand_v > consts.safe_variance);
                    assert(false);
                } else {
                    let b = if exists|k: int|
                        0 <= k < ks_list.len() && (#[trigger] ks_list[k]).index == i_ks {
                        choose|k: int|
                            0 <= k < ks_list.len() && (#[trigger] ks_list[k]).index == i_ks
                    } else {
                        choose|k: int|
                            0 <= k < ks_list.len() && (#[trigger] ks_list[k]).complexity
                                <= ks_complexity_at(oracle, config, input64, internal_dim, i_ks)
                                && ks_list[k].noise <= ks_noise_at(
                                oracle,
                                config,
                                input64,
                                internal_dim,
                                i_ks,
                            )
                    };
                    assert(0 <= b < ks_list.len());
                    assert(crate::pareto::ks_entry_ok(
                        oracle,
                        config,
                        input64,
                        internal_dim,
                        cut_complexity_ks,
                        cut_noise_ks,
                        ks_list[b],
                    ));
                    assert(ks_list[b].complexity <= cost_j && ks_list[b].noise <= noise_j);
                    let e_b = ks_list[b];
                    assert(sq * e_a.noise <= sq * noise_i) by (nonlinear_arith)
                        requires
                            e_a.noise <= noise_i,
                            sq >= 1,
                    ;
                    assert(pair_noise(sq, noise_ms, e_a, e_b) <= cand_v);
                    assert(pair_feasible(sq, noise_ms, consts.safe_variance as int, e_a, e_b));
                    assert(!improves_opt(
                        pair_complexity(multisum, e_a, e_b),
                        pair_noise(sq, noise_ms, e_a, e_b),
                        best,
                    ));
                    lemma_improves_monotonic(
                        pair_complexity(multisum, e_a, e_b),
                        pair_noise(sq, noise_ms, e_a, e_b),
                        cand_c,
                        cand_v,
                        best,
                    );
                    assert(false);
                }
            }
        }
    }
}

/// Scan the two pruned fronts for the cheapest feasible pair at one outer
/// coordinate, improving `state` under the lexicographic rule.
///
/// The forward blind-rotate scan meets the backward key-switch scan through
/// the resumable cursor `i_current_max_ks` (the cross-Pareto cut); the
/// contract proves every cut sound: on return no feasible pair at this
/// coordinate improves on the final incumbent.
#[verifier::loop_isolation(false)]
#[verifier::rlimit(100)]
pub fn update_state_with_best_decompositions<O: Oracle>(
    state: &mut OptimizationState,
    oracle: &O,
    consts: &OptimizationDecompositionsConsts,
    internal_dim: u64,
    glwe_params: GlweParameters,
)
    requires
        crate::oracle::br_pool_sorted(
            oracle,
            consts.config.br_decompositions@,
            consts.config.ciphertext_modulus_log,
        ),
        crate::oracle::ks_pool_sorted(
            oracle,
            consts.config.ks_decompositions@,
            consts.config.ciphertext_modulus_log,
        ),
        1 <= consts.noise_factor <= 0x10_0000,
        consts.sum_size <= 0x1_0000_0000,
        glwe_params.log2_polynomial_size < 64,
        spec_input_dim(glwe_params.glwe_dimension, glwe_params.log2_polynomial_size) <= u64::MAX,
    ensures
        final(state).count_domain == old(state).count_domain,
        state_progress(
            oracle,
            consts,
            glwe_params.glwe_dimension,
            glwe_params.log2_polynomial_size,
            internal_dim,
            old(state).best_solution,
            final(state).best_solution,
        ),
        point_optimal(
            oracle,
            consts,
            glwe_params.glwe_dimension,
            glwe_params.log2_polynomial_size,
            internal_dim,
            final(state).best_solution,
        ),
{
    let config = consts.config;
    let ghost g = glwe_params.glwe_dimension;
    let ghost lp = glwe_params.log2_polynomial_size;
    proof {
        assert(glwe_of(g, lp) == glwe_params);
    }
    let glwe_poly_size = glwe_params.polynomial_size();
    let input_lwe_dimension = glwe_params.glwe_dimension * glwe_poly_size;
    let noise_modulus_switching = oracle.modulus_switching_noise(
        internal_dim,
        glwe_poly_size,
        config.ciphertext_modulus_log,
    );
    let safe_variance = consts.safe_variance;
    let ghost ms_g: int = noise_modulus_switching as int;
    let ghost safe_g: int = safe_variance as int;
    let ghost nf_g: int = consts.noise_factor as int;
    let ghost sq_g: int = nf_g * nf_g;
    proof {
        assert(1 <= nf_g * nf_g <= 0x100_0000_0000) by (nonlinear_arith)
            requires
                1 <= nf_g <= 0x10_0000,
        ;
    }
    if noise_modulus_switching > safe_variance {
        // Even with no bootstrap or key-switch noise at all, the
        // modulus-switching noise alone breaks the bound.
        proof {
            assert forall|i_br: int, i_ks: int|
                0 <= i_br < config.br_decompositions@.len() && 0 <= i_ks
                    < config.ks_decompositions@.len() && #[trigger] atomic_feasible(
                    oracle,
                    consts,
                    g,
                    lp,
                    internal_dim,
                    i_br,
                    i_ks,
                ) implies !improves_opt(
                atomic_complexity(oracle, consts, g, lp, internal_dim, i_br, i_ks),
                atomic_noise(oracle, consts, g, lp, internal_dim, i_br, i_ks),
                state.best_solution,
            ) by {
                let noise_i = br_noise_at(oracle, config, internal_dim, glwe_of(g, lp), i_br) as int;
                assert(sq_g * noise_i >= 0) by (nonlinear_arith)
                    requires
                        sq_g >= 1,
                        noise_i >= 0,
                ;
                assert(atomic_noise(oracle, consts, g, lp, internal_dim, i_br, i_ks) > safe_g);
                assert(false);
            }
        }
        return ;
    }
    let (mut best_complexity, mut best_variance): (u128, u128) = match state.best_solution {
        Option::Some(s) => (s.complexity, s.noise_max),
        Option::None => (u128::MAX, u128::MAX),
    };
    proof {
        vstd::arithmetic::mul::lemma_mul_upper_bound(
            consts.sum_size as int,
            0x1_0000_0000,
            input_lwe_dimension as int,
            0xFFFF_FFFF_FFFF_FFFF,
        );
    }
    let complexity_multisum: u128 = (consts.sum_size as u128) * (input_lwe_dimension as u128);
    let ghost multisum_g: int = complexity_multisum as int;
    if complexity_multisum > best_complexity {
        // The fixed multisum alone is already over the incumbent's cost.
        proof {
            assert forall|i_br: int, i_ks: int|
                0 <= i_br < config.br_decompositions@.len() && 0 <= i_ks
                    < config.ks_decompositions@.len() && #[trigger] atomic_feasible(
                    oracle,
                    consts,
                    g,
                    lp,
                    internal_dim,
                    i_br,
                    i_ks,
                ) implies !improves_opt(
                atomic_complexity(oracle, consts, g, lp, internal_dim, i_br, i_ks),
                atomic_noise(oracle, consts, g, lp, internal_dim, i_br, i_ks),
                state.best_solution,
            ) by {
                assert(atomic_complexity(oracle, consts, g, lp, internal_dim, i_br, i_ks)
                    >= multisum_g);
            }
        }
        return ;
    }
    let mut cut_complexity: u128 = best_complexity - complexity_multisum;
    let mut cut_noise: u128 = (safe_variance - noise_modulus_switching) as u128;
    let ghost cut_complexity_br = cut_complexity;
    let ghost cut_noise_br = cut_noise;
    let br_quantities = crate::pareto::pareto_blind_rotate(
        oracle,
        consts,
        internal_dim,
        glwe_params,
        cut_complexity,
        cut_noise,
    );
    if br_quantities.len() == 0 {
        // Nothing survives the blind-rotate budgets: every pool entry is
        // over the complexity budget (so cannot improve) or over the noise
        // budget (so cannot be feasible).
        proof {
            assert forall|i_br: int, i_ks: int|
                0 <= i_br < config.br_decompositions@.len() && 0 <= i_ks
                    < config.ks_decompositions@.len() && #[trigger] atomic_feasible(
                    oracle,
                    consts,
                    g,
                    lp,
                    internal_dim,
                    i_br,
                    i_ks,
                ) implies !improves_opt(
                atomic_complexity(oracle, consts, g, lp, internal_dim, i_br, i_ks),
                atomic_noise(oracle, consts, g, lp, internal_dim, i_br, i_ks),
                state.best_solution,
            ) by {
                let cost_i = br_complexity_at(oracle, config, internal_dim, glwe_of(g, lp), i_br)
                    as int;
                let noise_i = br_noise_at(oracle, config, internal_dim, glwe_of(g, lp), i_br) as int;
                assert(crate::pareto::br_entry_covered(
                    oracle,
                    config,
                    internal_dim,
                    glwe_of(g, lp),
                    cut_complexity_br,
                    cut_noise_br,
                    true,
                    br_quantities@,
                    i_br,
                ));
                assert(sq_g * noise_i >= noise_i) by (nonlinear_arith)
                    requires
                        sq_g >= 1,
                        noise_i >= 0,
                ;
                if cost_i as u128 > cut_complexity_br {
                    assert(atomic_complexity(oracle, consts, g, lp, internal_dim, i_br, i_ks)
                        > multisum_g + cut_complexity_br);
                } else {
                    assert(noise_i as u128 > cut_noise_br);
                    assert(atomic_noise(oracle, consts, g, lp, internal_dim, i_br, i_ks) > safe_g);
                }
            }
        }
        return ;
    }
    let br_last_noise = br_quantities[br_quantities.len() - 1].noise;
    let br_first_complexity = br_quantities[0].complexity;
    proof {
        assert(crate::pareto::br_entry_ok(
            oracle,
            config,
            internal_dim,
            glwe_of(g, lp),
            cut_complexity_br,
            cut_noise_br,
            br_quantities@[br_quantities@.len() - 1],
        ));
        assert(crate::pareto::br_entry_ok(
            oracle,
            config,
            internal_dim,
            glwe_of(g, lp),
            cut_complexity_br,
            cut_noise_br,
            br_quantities@[0],
        ));
    }
    cut_noise = cut_noise - br_last_noise as u128;
    cut_complexity = cut_complexity - br_first_complexity as u128;
    let ghost cut_complexity_ks = cut_complexity;
    let ghost cut_noise_ks = cut_noise;
    let ks_quantities = crate::pareto::pareto_keyswitch(
        oracle,
        consts,
        input_lwe_dimension,
        internal_dim,
        cut_complexity,
        cut_noise,
    );
    if ks_quantities.len() == 0 {
        proof {
            lemma_point_optimal_from_lists(
                oracle,
                consts,
                g,
                lp,
                internal_dim,
                multisum_g,
                ms_g,
                br_quantities@,
                ks_quantities@,
                cut_complexity_br,
                cut_noise_br,
                cut_complexity_ks,
                cut_noise_ks,
                state.best_solution,
            );
        }
        return ;
    }
    let i_max_ks = ks_quantities.len() - 1;
    let mut i_current_max_ks = i_max_ks;
    let square_noise_factor: u128 = (consts.noise_factor as u128) * (consts.noise_factor as u128);
    proof {
        assert(square_noise_factor == sq_g);
    }
    let mut a: usize = 0;
    let mut cut: bool = false;
    while a < br_quantities.len() && !cut
        invariant
            a <= br_quantities@.len(),
            i_current_max_ks < ks_quantities@.len(),
            state.count_domain == old(state).count_domain,
            best_tracked(state.best_solution, best_complexity, best_variance),
            state_progress(oracle, consts, g, lp, internal_dim, old(state).best_solution, state.best_solution),
            pairs_handled(
                br_quantities@,
                ks_quantities@,
                a as int,
                multisum_g,
                sq_g,
                ms_g,
                safe_g,
                state.best_solution,
            ),
            cut ==> pairs_handled(
                br_quantities@,
                ks_quantities@,
                br_quantities@.len() as int,
                multisum_g,
                sq_g,
                ms_g,
                safe_g,
                state.best_solution,
            ),
            cursor_sound(
                br_quantities@,
                ks_quantities@,
                a as int,
                i_current_max_ks as int,
                sq_g,
                ms_g,
                safe_g,
            ),
        decreases br_quantities@.len() - a, if cut { 0int } else { 1int },
    {
        let br_quantity = br_quantities[a];
        proof {
            assert(crate::pareto::br_entry_ok(
                oracle,
                config,
                internal_dim,
                glwe_of(g, lp),
                cut_complexity_br,
                cut_noise_br,
                br_quantities@[a as int],
            ));
            vstd::arithmetic::mul::lemma_mul_upper_bound(
                br_quantity.noise as int,
                0xFFFF_FFFF_FFFF_FFFF,
                square_noise_factor as int,
                0x100_0000_0000,
            );
        }
        let noise_in: u128 = br_quantity.noise as u128 * square_noise_factor;
        let noise_max_base: u128 = noise_in + noise_modulus_switching as u128;
        proof {
            assert(noise_in as int == sq_g * br_quantity.noise) by (nonlinear_arith)
                requires
                    noise_in as int == br_quantity.noise * (square_noise_factor as int),
                    sq_g == square_noise_factor as int,
            ;
        }
        if noise_max_base > safe_variance as u128 {
            // Already infeasible before any key-switch noise: so is every
            // pair in this row.
            proof {
                assert forall|b: int| 0 <= b < ks_quantities@.len() implies !pair_feasible(
                    sq_g,
                    ms_g,
                    safe_g,
                    br_quantities@[a as int],
                    ks_quantities@[b],
                ) by {
                    assert(pair_noise(sq_g, ms_g, br_quantities@[a as int], ks_quantities@[b])
                        >= noise_in + ms_g);
                }
                assert forall|b: int| i_current_max_ks < b < ks_quantities@.len() implies exists|a0: int|
                    0 <= a0 < a + 1 && pair_feasible(
                        sq_g,
                        ms_g,
                        safe_g,
                        #[trigger] br_quantities@[a0],
                        #[trigger] ks_quantities@[b],
                    ) by {
                    let a0 = choose|a0: int|
                        0 <= a0 < a && pair_feasible(
                            sq_g,
                            ms_g,
                            safe_g,
                            #[trigger] br_quantities@[a0],
                            #[trigger] ks_quantities@[b],
                        );
                    assert(0 <= a0 < a + 1 && pair_feasible(
                        sq_g,
                        ms_g,
                        safe_g,
                        br_quantities@[a0],
                        ks_quantities@[b],
                    ));
                }
            }
            a += 1;
            continue;
        }
        let complexity_pbs = br_quantity.complexity;
        let complexity = complexity_multisum + complexity_pbs as u128;
        if complexity > best_complexity {
            // Blind-rotate cost alone is over the incumbent, and it only
            // grows along the front: stop the whole scan.
            proof {
                assert(state.best_solution is Some);
                assert forall|a2: int, b: int|
                    0 <= a2 < br_quantities@.len() && 0 <= b < ks_quantities@.len()
                        && pair_feasible(
                        sq_g,
                        ms_g,
                        safe_g,
                        #[trigger] br_quantities@[a2],
                        #[trigger] ks_quantities@[b],
                    ) implies !improves_opt(
                    pair_complexity(multisum_g, br_quantities@[a2], ks_quantities@[b]),
                    pair_noise(sq_g, ms_g, br_quantities@[a2], ks_quantities@[b]),
                    state.best_solution,
                ) by {
                    if a2 >= a {
                        if a2 > a {
                            assert(br_quantities@[a as int].complexity
                                < br_quantities@[a2].complexity);
                        }
                        assert(pair_complexity(multisum_g, br_quantities@[a2], ks_quantities@[b])
                            >= multisum_g + complexity_pbs);
                    }
                }
            }
            cut = true;
            continue;
        }
        // Backward scan of the key-switch front, from the resumable cursor.
        let ghost start_cursor = i_current_max_ks as int;
        let mut b_plus: usize = i_current_max_ks + 1;
        let mut row_done: bool = false;
        while b_plus > 0 && !row_done
            invariant
                b_plus <= start_cursor + 1,
                !row_done ==> i_current_max_ks as int == start_cursor,
                i_current_max_ks < ks_quantities@.len(),
                state.count_domain == old(state).count_domain,
                best_tracked(state.best_solution, best_complexity, best_variance),
                state_progress(oracle, consts, g, lp, internal_dim, old(state).best_solution, state.best_solution),
                pairs_handled(
                    br_quantities@,
                    ks_quantities@,
                    a as int,
                    multisum_g,
                    sq_g,
                    ms_g,
                    safe_g,
                    state.best_solution,
                ),
                cursor_sound(
                    br_quantities@,
                    ks_quantities@,
                    a as int,
                    start_cursor,
                    sq_g,
                    ms_g,
                    safe_g,
                ),
                forall|b2: int|
                    b_plus <= b2 <= start_cursor && pair_feasible(
                        sq_g,
                        ms_g,
                        safe_g,
                        br_quantities@[a as int],
                        #[trigger] ks_quantities@[b2],
                    ) ==> !improves_opt(
                        pair_complexity(
                            multisum_g,
                            br_quantities@[a as int],
                            ks_quantities@[b2],
                        ),
                        pair_noise(sq_g, ms_g, br_quantities@[a as int], ks_quantities@[b2]),
                        state.best_solution,
                    ),
                !row_done ==> forall|b2: int|
                    b_plus <= b2 <= start_cursor ==> pair_feasible(
                        sq_g,
                        ms_g,
                        safe_g,
                        br_quantities@[a as int],
                        #[trigger] ks_quantities@[b2],
                    ),
                row_done ==> forall|b2: int|
                    0 <= b2 < b_plus ==> !pair_feasible(
                        sq_g,
                        ms_g,
                        safe_g,
                        br_quantities@[a as int],
                        #[trigger] ks_quantities@[b2],
                    ),
                row_done ==> forall|b2: int|
                    i_current_max_ks < b2 <= start_cursor ==> pair_feasible(
                        sq_g,
                        ms_g,
                        safe_g,
                        br_quantities@[a as int],
                        #[trigger] ks_quantities@[b2],
                    ),
            decreases b_plus, if row_done { 0int } else { 1int },
        {
            b_plus -= 1;
            let i_ks_pareto = b_plus;
            let ks_quantity = ks_quantities[i_ks_pareto];
            proof {
                assert(crate::pareto::ks_entry_ok(
                    oracle,
                    config,
                    input_lwe_dimension,
                    internal_dim,
                    cut_complexity_ks,
                    cut_noise_ks,
                    ks_quantities@[i_ks_pareto as int],
                ));
            }
            let noise_keyswitch = ks_quantity.noise;
            let noise_max: u128 = noise_in + noise_keyswitch as u128
                + noise_modulus_switching as u128;
            let complexity_keyswitch = ks_quantity.complexity;
            let complexity: u128 = complexity_multisum + complexity_keyswitch as u128
                + complexity_pbs as u128;
            proof {
                assert(noise_max as int == pair_noise(
                    sq_g,
                    ms_g,
                    br_quantities@[a as int],
                    ks_quantities@[i_ks_pareto as int],
                ));
                assert(complexity as int == pair_complexity(
                    multisum_g,
                    br_quantities@[a as int],
                    ks_quantities@[i_ks_pareto as int],
                ));
            }
            if noise_max > safe_variance as u128 {
                // Deeper key-switch entries are noisier still: cut, and
                // resume the next row just above this entry.
                proof {
                    assert forall|b2: int|
                        0 <= b2 <= i_ks_pareto implies !pair_feasible(
                        sq_g,
                        ms_g,
                        safe_g,
                        br_quantities@[a as int],
                        ks_quantities@[b2],
                    ) by {
                        if b2 < i_ks_pareto {
                            assert(ks_quantities@[b2].noise
                                > ks_quantities@[i_ks_pareto as int].noise);
                        }
                        assert(pair_noise(
                            sq_g,
                            ms_g,
                            br_quantities@[a as int],
                            ks_quantities@[b2],
                        ) >= noise_max);
                    }
                }
                i_current_max_ks = if i_ks_pareto + 1 <= i_max_ks {
                    i_ks_pareto + 1
                } else {
                    i_max_ks
                };
                b_plus += 1;
                row_done = true;
                continue;
            } else if complexity > best_complexity {
                // Feasible but over the incumbent: a deeper (cheaper)
                // key-switch entry may still fit.
                continue;
            }
            // Feasible and at least as cheap as the incumbent.
            if complexity < best_complexity || noise_max < best_variance {
                let p_error = oracle.error_probability(
                    config.maximum_acceptable_error_probability,
                    safe_variance,
                    noise_max,
                );
                let i_br_pool = br_quantity.index;
                let i_ks_pool = ks_quantity.index;
                let br_d = config.br_decompositions[i_br_pool];
                let ks_d = config.ks_decompositions[i_ks_pool];
                let ghost prior_best = state.best_solution;
                let sol = Solution {
                    input_lwe_dimension,
                    internal_ks_output_lwe_dimension: internal_dim,
                    ks_decomposition_level_count: ks_d.level,
                    ks_decomposition_base_log: ks_d.log2_base,
                    glwe_polynomial_size: glwe_poly_size,
                    glwe_dimension: glwe_params.glwe_dimension,
                    br_decomposition_level_count: br_d.level,
                    br_decomposition_base_log: br_d.log2_base,
                    complexity,
                    noise_max,
                    p_error,
                    global_p_error: Option::None,
                };
                best_complexity = complexity;
                best_variance = noise_max;
                state.best_solution = Some(sol);
                proof {
                    assert(improves_opt(sol.complexity as int, sol.noise_max as int, prior_best));
                    assert(solution_matches(
                        oracle,
                        consts,
                        g,
                        lp,
                        internal_dim,
                        i_br_pool as int,
                        i_ks_pool as int,
                        sol,
                    ));
                    if prior_best != old(state).best_solution {
                        let s_mid = prior_best.unwrap();
                        assert(improves_opt(
                            s_mid.complexity as int,
                            s_mid.noise_max as int,
                            old(state).best_solution,
                        ));
                    }
                    assert(improves_opt(
                        sol.complexity as int,
                        sol.noise_max as int,
                        old(state).best_solution,
                    ));
                    assert forall|a2: int, b2: int|
                        0 <= a2 < a && 0 <= b2 < ks_quantities@.len() && pair_feasible(
                            sq_g,
                            ms_g,
                            safe_g,
                            #[trigger] br_quantities@[a2],
                            #[trigger] ks_quantities@[b2],
                        ) implies !improves_opt(
                        pair_complexity(multisum_g, br_quantities@[a2], ks_quantities@[b2]),
                        pair_noise(sq_g, ms_g, br_quantities@[a2], ks_quantities@[b2]),
                        state.best_solution,
                    ) by {
                        lemma_not_improves_preserved(
                            pair_complexity(multisum_g, br_quantities@[a2], ks_quantities@[b2]),
                            pair_noise(sq_g, ms_g, br_quantities@[a2], ks_quantities@[b2]),
                            prior_best,
                            sol,
                        );
                    }
                    assert forall|b2: int|
                        b_plus + 1 <= b2 <= start_cursor && pair_feasible(
                            sq_g,
                            ms_g,
                            safe_g,
                            br_quantities@[a as int],
                            #[trigger] ks_quantities@[b2],
                        ) implies !improves_opt(
                        pair_complexity(
                            multisum_g,
                            br_quantities@[a as int],
                            ks_quantities@[b2],
                        ),
                        pair_noise(sq_g, ms_g, br_quantities@[a as int], ks_quantities@[b2]),
                        state.best_solution,
                    ) by {
                        lemma_not_improves_preserved(
                            pair_complexity(
                                multisum_g,
                                br_quantities@[a as int],
                                ks_quantities@[b2],
                            ),
                            pair_noise(sq_g, ms_g, br_quantities@[a as int], ks_quantities@[b2]),
                            prior_best,
                            sol,
                        );
                    }
                }
            }
        }
        // Row `a` is fully handled: scanned below the start cursor, and
        // strictly costlier than an already scanned feasible pair above it.
        proof {
            assert forall|a2: int, b: int|
                0 <= a2 < a + 1 && 0 <= b < ks_quantities@.len() && pair_feasible(
                    sq_g,
                    ms_g,
                    safe_g,
                    #[trigger] br_quantities@[a2],
                    #[trigger] ks_quantities@[b],
                ) implies !improves_opt(
                pair_complexity(multisum_g, br_quantities@[a2], ks_quantities@[b]),
                pair_noise(sq_g, ms_g, br_quantities@[a2], ks_quantities@[b]),
                state.best_solution,
            ) by {
                if a2 == a && b > start_cursor {
                    let a0 = choose|a0: int|
                        0 <= a0 < a && pair_feasible(
                            sq_g,
                            ms_g,
                            safe_g,
                            #[trigger] br_quantities@[a0],
                            #[trigger] ks_quantities@[b],
                        );
                    assert(!improves_opt(
                        pair_complexity(multisum_g, br_quantities@[a0], ks_quantities@[b]),
                        pair_noise(sq_g, ms_g, br_quantities@[a0], ks_quantities@[b]),
                        state.best_solution,
                    ));
                    assert(br_quantities@[a0].complexity < br_quantities@[a as int].complexity);
                }
            }
            assert forall|b: int|
                i_current_max_ks < b < ks_quantities@.len() implies exists|a0: int|
                0 <= a0 < a + 1 && pair_feasible(
                    sq_g,
                    ms_g,
                    safe_g,
                    #[trigger] br_quantities@[a0],
                    #[trigger] ks_quantities@[b],
                ) by {
                if b <= start_cursor {
                    assert(pair_feasible(
                        sq_g,
                        ms_g,
                        safe_g,
                        br_quantities@[a as int],
                        ks_quantities@[b],
                    ));
                } else {
                    let a0 = choose|a0: int|
                        0 <= a0 < a && pair_feasible(
                            sq_g,
                            ms_g,
                            safe_g,
                            #[trigger] br_quantities@[a0],
                            #[trigger] ks_quantities@[b],
                        );
                    assert(0 <= a0 < a + 1 && pair_feasible(
                        sq_g,
                        ms_g,
                        safe_g,
                        br_quantities@[a0],
                        ks_quantities@[b],
                    ));
                }
            }
        }
        a += 1;
    }
    // From pairs of kept entries to pairs of pool entries.
    proof {
        lemma_point_optimal_from_lists(
            oracle,
            consts,
            g,
            lp,
            internal_dim,
            multisum_g,
            ms_g,
            br_quantities@,
            ks_quantities@,
            cut_complexity_br,
            cut_noise_br,
            cut_complexity_ks,
            cut_noise_ks,
            state.best_solution,
        );
    }
}

/// Improving the incumbent keeps every established per-point optimality.
proof fn lemma_point_optimal_preserved<O: Oracle>(
    oracle: &O,
    consts: &OptimizationDecompositionsConsts,
    glwe_dim: u64,
    log2_poly_size: u64,
    internal_dim: u64,
    old_best: Option<Solution>,
    new_best: Option<Solution>,
)
    requires
        point_optimal(oracle, consts, glwe_dim, log2_poly_size, internal_dim, old_best),
        new_best == old_best || (new_best is Some && improves_opt(
            new_best.unwrap().complexity as int,
            new_best.unwrap().noise_max as int,
            old_best,
        )),
    ensures
        point_optimal(oracle, consts, glwe_dim, log2_poly_size, internal_dim, new_best),
{
    if new_best != old_best {
        assert forall|i_br: int, i_ks: int|
            0 <= i_br < consts.config.br_decompositions@.len() && 0 <= i_ks
                < consts.config.ks_decompositions@.len() && #[trigger] atomic_feasible(
                oracle,
                consts,
                glwe_dim,
                log2_poly_size,
                internal_dim,
                i_br,
                i_ks,
            ) implies !improves_opt(
            atomic_complexity(oracle, consts, glwe_dim, log2_poly_size, internal_dim, i_br, i_ks),
            atomic_noise(oracle, consts, glwe_dim, log2_poly_size, internal_dim, i_br, i_ks),
            new_best,
        ) by {
            lemma_not_improves_preserved(
                atomic_complexity(oracle, consts, glwe_dim, log2_poly_size, internal_dim, i_br, i_ks),
                atomic_noise(oracle, consts, glwe_dim, log2_poly_size, internal_dim, i_br, i_ks),
                old_best,
                new_best.unwrap(),
            );
        }
    }
}

/// Optimize a single atomic pattern: enumerate the whole outer search space,
/// delegating each coordinate to the decomposition combiner.
///
/// On return the state holds a candidate that no feasible candidate of the
/// (non-skipped) space improves on, or no solution exactly when no feasible
/// candidate exists; any returned solution keeps its failure probability
/// within the configured bound.
#[verifier::loop_isolation(false)]
#[verifier::rlimit(60)]
pub fn optimize_one<O: Oracle>(
    oracle: &O,
    sum_size: u64,
    precision: u64,
    config: &Config,
    noise_factor: u64,
    search_space: &SearchSpace,
    restart_at: Option<Solution>,
) -> (state: OptimizationState)
    requires
        0 < precision <= 16,
        1 <= noise_factor <= 0x10_0000,
        sum_size <= 0x1_0000_0000,
        0 < config.maximum_acceptable_error_probability < crate::oracle::PROB_ONE,
        crate::oracle::br_pool_sorted(
            oracle,
            config.br_decompositions@,
            config.ciphertext_modulus_log,
        ),
        crate::oracle::ks_pool_sorted(
            oracle,
            config.ks_decompositions@,
            config.ciphertext_modulus_log,
        ),
        config.br_decompositions@.len() < 64,
        config.ks_decompositions@.len() < 64,
        search_space.internal_lwe_dimensions@.len() > 0,
        forall|i: int, j: int|
            0 <= i <= j < search_space.internal_lwe_dimensions@.len()
                ==> #[trigger] search_space.internal_lwe_dimensions@[i]
                <= #[trigger] search_space.internal_lwe_dimensions@[j],
        forall|i: int|
            0 <= i < search_space.internal_lwe_dimensions@.len()
                ==> 256 < #[trigger] search_space.internal_lwe_dimensions@[i],
        forall|i: int|
            0 <= i < search_space.glwe_log_polynomial_sizes@.len() ==> 8
                <= #[trigger] search_space.glwe_log_polynomial_sizes@[i] < 18,
        forall|gi: int, pi: int|
            0 <= gi < search_space.glwe_dimensions@.len() && 0 <= pi
                < search_space.glwe_log_polynomial_sizes@.len() ==> #[trigger] spec_input_dim(
                search_space.glwe_dimensions@[gi],
                search_space.glwe_log_polynomial_sizes@[pi],
            ) <= u64::MAX,
        search_space.glwe_dimensions@.len() * search_space.glwe_log_polynomial_sizes@.len()
            <= usize::MAX,
        search_space.glwe_dimensions@.len() * search_space.glwe_log_polynomial_sizes@.len()
            * search_space.internal_lwe_dimensions@.len() <= usize::MAX,
        search_space.glwe_dimensions@.len() * search_space.glwe_log_polynomial_sizes@.len()
            * search_space.internal_lwe_dimensions@.len() * config.ks_decompositions@.len()
            <= usize::MAX,
        search_space.glwe_dimensions@.len() * search_space.glwe_log_polynomial_sizes@.len()
            * search_space.internal_lwe_dimensions@.len() * config.ks_decompositions@.len()
            * config.br_decompositions@.len() <= usize::MAX,
    ensures
        state.count_domain == search_space.glwe_dimensions@.len()
            * search_space.glwe_log_polynomial_sizes@.len()
            * search_space.internal_lwe_dimensions@.len() * config.ks_decompositions@.len()
            * config.br_decompositions@.len(),
        searched_optimal(
            oracle,
            &run_consts(oracle, config, sum_size, noise_factor, precision),
            search_space,
            restart_at,
            state.best_solution,
        ),
        state.best_solution is Some ==> solution_attained(
            oracle,
            &run_consts(oracle, config, sum_size, noise_factor, precision),
            search_space,
            state.best_solution.unwrap(),
        ),
        state.best_solution is Some ==> state.best_solution.unwrap().p_error
            <= config.maximum_acceptable_error_probability,
        state.best_solution is Some ==> state.best_solution.unwrap().p_error
            <= crate::oracle::PROB_ONE,
{
    let safe_variance = oracle.safe_variance_bound(
        precision,
        config.ciphertext_modulus_log,
        config.maximum_acceptable_error_probability,
    );
    let consts = OptimizationDecompositionsConsts { config, sum_size, noise_factor, safe_variance };
    proof {
        assert(consts == run_consts(oracle, config, sum_size, noise_factor, precision));
    }
    let count_domain: usize = search_space.glwe_dimensions.len()
        * search_space.glwe_log_polynomial_sizes.len()
        * search_space.internal_lwe_dimensions.len() * config.ks_decompositions.len()
        * config.br_decompositions.len();
    let mut state = OptimizationState { best_solution: None, count_domain };
    let min_internal_lwe_dimensions = search_space.internal_lwe_dimensions[0];
    let mut gi: usize = 0;
    while gi < search_space.glwe_dimensions.len()
        invariant
            gi <= search_space.glwe_dimensions@.len(),
            state.count_domain == count_domain,
            state.best_solution is Some ==> solution_attained(
                oracle,
                &consts,
                search_space,
                state.best_solution.unwrap(),
            ),
            forall|gi2: int, pi2: int, ni2: int|
                0 <= gi2 < gi && 0 <= pi2 < search_space.glwe_log_polynomial_sizes@.len() && 0
                    <= ni2 < search_space.internal_lwe_dimensions@.len() && !skip_coord(
                    restart_at,
                    search_space.glwe_dimensions@[gi2],
                    search_space.glwe_log_polynomial_sizes@[pi2],
                ) ==> #[trigger] point_optimal(
                    oracle,
                    &consts,
                    search_space.glwe_dimensions@[gi2],
                    search_space.glwe_log_polynomial_sizes@[pi2],
                    search_space.internal_lwe_dimensions@[ni2],
                    state.best_solution,
                ),
        decreases search_space.glwe_dimensions@.len() - gi,
    {
        let glwe_dim = search_space.glwe_dimensions[gi];
        let mut pi: usize = 0;
        while pi < search_space.glwe_log_polynomial_sizes.len()
            invariant
                pi <= search_space.glwe_log_polynomial_sizes@.len(),
                state.count_domain == count_domain,
                state.best_solution is Some ==> solution_attained(
                    oracle,
                    &consts,
                    search_space,
                    state.best_solution.unwrap(),
                ),
                forall|gi2: int, pi2: int, ni2: int|
                    0 <= gi2 < gi && 0 <= pi2 < search_space.glwe_log_polynomial_sizes@.len() && 0
                        <= ni2 < search_space.internal_lwe_dimensions@.len() && !skip_coord(
                        restart_at,
                        search_space.glwe_dimensions@[gi2],
                        search_space.glwe_log_polynomial_sizes@[pi2],
                    ) ==> #[trigger] point_optimal(
                        oracle,
                        &consts,
                        search_space.glwe_dimensions@[gi2],
                        search_space.glwe_log_polynomial_sizes@[pi2],
                        search_space.internal_lwe_dimensions@[ni2],
                        state.best_solution,
                    ),
                forall|pi2: int, ni2: int|
                    0 <= pi2 < pi && 0 <= ni2 < search_space.internal_lwe_dimensions@.len()
                        && !skip_coord(
                        restart_at,
                        glwe_dim,
                        search_space.glwe_log_polynomial_sizes@[pi2],
                    ) ==> #[trigger] point_optimal(
                        oracle,
                        &consts,
                        glwe_dim,
                        search_space.glwe_log_polynomial_sizes@[pi2],
                        search_space.internal_lwe_dimensions@[ni2],
                        state.best_solution,
                    ),
            decreases search_space.glwe_log_polynomial_sizes@.len() - pi,
        {
            let glwe_log_poly_size = search_space.glwe_log_polynomial_sizes[pi];
            let glwe_poly_size = 1u64 << glwe_log_poly_size;
            // Modulus-switching noise grows with the internal dimension: if
            // the smallest dimension is already infeasible, the whole
            // polynomial size is.
            let cut_noise_floor = oracle.modulus_switching_noise(
                min_internal_lwe_dimensions,
                glwe_poly_size,
                config.ciphertext_modulus_log,
            );
            if cut_noise_floor > safe_variance {
                proof {
                    assert forall|ni2: int|
                        0 <= ni2 < search_space.internal_lwe_dimensions@.len()
                            implies #[trigger] point_optimal(
                        oracle,
                        &consts,
                        glwe_dim,
                        glwe_log_poly_size,
                        search_space.internal_lwe_dimensions@[ni2],
                        state.best_solution,
                    ) by {
                        let n2 = search_space.internal_lwe_dimensions@[ni2];
                        oracle.law_modulus_switching_noise_monotonic(
                            min_internal_lwe_dimensions,
                            n2,
                            glwe_poly_size,
                            config.ciphertext_modulus_log,
                        );
                        assert forall|i_br: int, i_ks: int|
                            0 <= i_br < config.br_decompositions@.len() && 0 <= i_ks
                                < config.ks_decompositions@.len() && #[trigger] atomic_feasible(
                                oracle,
                                &consts,
                                glwe_dim,
                                glwe_log_poly_size,
                                n2,
                                i_br,
                                i_ks,
                            ) implies !improves_opt(
                            atomic_complexity(
                                oracle,
                                &consts,
                                glwe_dim,
                                glwe_log_poly_size,
                                n2,
                                i_br,
                                i_ks,
                            ),
                            atomic_noise(
                                oracle,
                                &consts,
                                glwe_dim,
                                glwe_log_poly_size,
                                n2,
                                i_br,
                                i_ks,
                            ),
                            state.best_solution,
                        ) by {
                            let noise_i = crate::pareto::br_noise_at(
                                oracle,
                                config,
                                n2,
                                glwe_of(glwe_dim, glwe_log_poly_size),
                                i_br,
                            ) as int;
                            let sq = (noise_factor as int) * (noise_factor as int);
                            assert(sq * noise_i >= 0) by (nonlinear_arith)
                                requires
                                    sq >= 1,
                                    noise_i >= 0,
                            ;
                            assert(atomic_noise(
                                oracle,
                                &consts,
                                glwe_dim,
                                glwe_log_poly_size,
                                n2,
                                i_br,
                                i_ks,
                            ) > consts.safe_variance);
                            assert(false);
                        }
                    }
                }
                pi += 1;
                continue;
            }
            let skip = match restart_at {
                Option::Some(solution) => glwe_dim < solution.glwe_dimension && glwe_poly_size
                    < solution.glwe_polynomial_size,
                Option::None => false,
            };
            if skip {
                proof {
                    assert(skip_coord(restart_at, glwe_dim, glwe_log_poly_size));
                }
                pi += 1;
                continue;
            }
            let glwe_params = GlweParameters {
                log2_polynomial_size: glwe_log_poly_size,
                glwe_dimension: glwe_dim,
            };
            let mut ni: usize = 0;
            while ni < search_space.internal_lwe_dimensions.len()
                invariant
                    ni <= search_space.internal_lwe_dimensions@.len(),
                    state.count_domain == count_domain,
                    state.best_solution is Some ==> solution_attained(
                        oracle,
                        &consts,
                        search_space,
                        state.best_solution.unwrap(),
                    ),
                    forall|gi2: int, pi2: int, ni2: int|
                        0 <= gi2 < gi && 0 <= pi2 < search_space.glwe_log_polynomial_sizes@.len()
                            && 0 <= ni2 < search_space.internal_lwe_dimensions@.len()
                            && !skip_coord(
                            restart_at,
                            search_space.glwe_dimensions@[gi2],
                            search_space.glwe_log_polynomial_sizes@[pi2],
                        ) ==> #[trigger] point_optimal(
                            oracle,
                            &consts,
                            search_space.glwe_dimensions@[gi2],
                            search_space.glwe_log_polynomial_sizes@[pi2],
                            search_space.internal_lwe_dimensions@[ni2],
                            state.best_solution,
                        ),
                    forall|pi2: int, ni2: int|
                        0 <= pi2 < pi && 0 <= ni2 < search_space.internal_lwe_dimensions@.len()
                            && !skip_coord(
                            restart_at,
                            glwe_dim,
                            search_space.glwe_log_polynomial_sizes@[pi2],
                        ) ==> #[trigger] point_optimal(
                            oracle,
                            &consts,
                            glwe_dim,
                            search_space.glwe_log_polynomial_sizes@[pi2],
                            search_space.internal_lwe_dimensions@[ni2],
                            state.best_solution,
                        ),
                    forall|ni2: int|
                        0 <= ni2 < ni ==> #[trigger] point_optimal(
                            oracle,
                            &consts,
                            glwe_dim,
                            glwe_log_poly_size,
                            search_space.internal_lwe_dimensions@[ni2],
                            state.best_solution,
                        ),
                decreases search_space.internal_lwe_dimensions@.len() - ni,
            {
                let internal_dim = search_space.internal_lwe_dimensions[ni];
                let ghost pre_best = state.best_solution;
                update_state_with_best_decompositions(
                    &mut state,
                    oracle,
                    &consts,
                    internal_dim,
                    glwe_params,
                );
                proof {
                    if state.best_solution != pre_best {
                        let s = state.best_solution.unwrap();
                        let (i_br, i_ks) = choose|i_br: int, i_ks: int|
                            #[trigger] solution_matches(
                                oracle,
                                &consts,
                                glwe_dim,
                                glwe_log_poly_size,
                                internal_dim,
                                i_br,
                                i_ks,
                                s,
                            );
                        assert(0 <= gi < search_space.glwe_dimensions@.len() && 0 <= pi
                            < search_space.glwe_log_polynomial_sizes@.len() && 0 <= ni
                            < search_space.internal_lwe_dimensions@.len() && solution_matches(
                            oracle,
                            &consts,
                            search_space.glwe_dimensions@[gi as int],
                            search_space.glwe_log_polynomial_sizes@[pi as int],
                            search_space.internal_lwe_dimensions@[ni as int],
                            i_br,
                            i_ks,
                            s,
                        ));
                        assert(solution_attained(oracle, &consts, search_space, s));
                        assert forall|gi2: int, pi2: int, ni2: int|
                            0 <= gi2 < gi && 0 <= pi2
                                < search_space.glwe_log_polynomial_sizes@.len() && 0 <= ni2
                                < search_space.internal_lwe_dimensions@.len() && !skip_coord(
                                restart_at,
                                search_space.glwe_dimensions@[gi2],
                                search_space.glwe_log_polynomial_sizes@[pi2],
                            ) implies #[trigger] point_optimal(
                            oracle,
                            &consts,
                            search_space.glwe_dimensions@[gi2],
                            search_space.glwe_log_polynomial_sizes@[pi2],
                            search_space.internal_lwe_dimensions@[ni2],
                            state.best_solution,
                        ) by {
                            lemma_point_optimal_preserved(
                                oracle,
                                &consts,
                                search_space.glwe_dimensions@[gi2],
                                search_space.glwe_log_polynomial_sizes@[pi2],
                                search_space.internal_lwe_dimensions@[ni2],
                                pre_best,
                                state.best_solution,
                            );
                        }
                        assert forall|pi2: int, ni2: int|
                            0 <= pi2 < pi && 0 <= ni2 < search_space.internal_lwe_dimensions@.len()
                                && !skip_coord(
                                restart_at,
                                glwe_dim,
                                search_space.glwe_log_polynomial_sizes@[pi2],
                            ) implies #[trigger] point_optimal(
                            oracle,
                            &consts,
                            glwe_dim,
                            search_space.glwe_log_polynomial_sizes@[pi2],
                            search_space.internal_lwe_dimensions@[ni2],
                            state.best_solution,
                        ) by {
                            lemma_point_optimal_preserved(
                                oracle,
                                &consts,
                                glwe_dim,
                                search_space.glwe_log_polynomial_sizes@[pi2],
                                search_space.internal_lwe_dimensions@[ni2],
                                pre_best,
                                state.best_solution,
                            );
                        }
                        assert forall|ni2: int| 0 <= ni2 < ni implies #[trigger] point_optimal(
                            oracle,
                            &consts,
                            glwe_dim,
                            glwe_log_poly_size,
                            search_space.internal_lwe_dimensions@[ni2],
                            state.best_solution,
                        ) by {
                            lemma_point_optimal_preserved(
                                oracle,
                                &consts,
                                glwe_dim,
                                glwe_log_poly_size,
                                search_space.internal_lwe_dimensions@[ni2],
                                pre_best,
                                state.best_solution,
                            );
                        }
                    }
                }
                ni += 1;
            }
            pi += 1;
        }
        gi += 1;
    }
    proof {
        if state.best_solution is Some {
            let s = state.best_solution.unwrap();
            let (gi2, pi2, ni2, i_br, i_ks) = choose|gi2: int, pi2: int, ni2: int, i_br: int, i_ks: int|
                0 <= gi2 < search_space.glwe_dimensions@.len() && 0 <= pi2
                    < search_space.glwe_log_polynomial_sizes@.len() && 0 <= ni2
                    < search_space.internal_lwe_dimensions@.len() && #[trigger] solution_matches(
                    oracle,
                    &consts,
                    search_space.glwe_dimensions@[gi2],
                    search_space.glwe_log_polynomial_sizes@[pi2],
                    search_space.internal_lwe_dimensions@[ni2],
                    i_br,
                    i_ks,
                    s,
                );
            oracle.law_error_probability_bounds(
                config.maximum_acceptable_error_probability,
                safe_variance,
                s.noise_max,
            );
        }
    }
    state
}

} // verus!
