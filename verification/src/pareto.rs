//! Pruned Pareto fronts of one decomposition axis.
//!
//! Given an outer context and two feasibility thresholds, a single pass over
//! a decomposition pool keeps only the points that can still matter: points
//! over the complexity budget end the scan (the pool is sorted by
//! complexity), points over the noise budget are skipped, and, when the
//! Pareto cut is active, points dominated in both coordinates are dropped.
//! The contract pins the surviving set exactly: every pool entry is either
//! represented, over one of the two budgets, or dominated by a kept entry.

use vstd::prelude::*;

use crate::atomic_pattern::OptimizationDecompositionsConsts;
use crate::oracle::{br_complexity, br_noise, ks_complexity, ks_noise, Oracle};
use crate::oracle::{br_pool_sorted, ks_pool_sorted};
use crate::parameters::{Config, GlweParameters, KeyswitchParameters, PbsParameters};

verus! {

/// One admissible decomposition: its position in the pool and its cost and
/// noise in the outer context the list was built for.
#[derive(Clone, Copy, PartialEq, Eq, Structural, Debug)]
pub struct ComplexityNoise {
    pub index: usize,
    pub complexity: u64,
    pub noise: u64,
}

/// Cost of the `i`-th blind-rotate pool entry in the given outer context.
pub open spec fn br_complexity_at<O: Oracle>(
    oracle: &O,
    config: &Config,
    internal_dim: u64,
    glwe_params: GlweParameters,
    i: int,
) -> u64 {
    br_complexity(
        oracle,
        config.br_decompositions@[i],
        internal_dim,
        glwe_params,
        config.ciphertext_modulus_log,
    )
}

/// Noise of the `i`-th blind-rotate pool entry in the given outer context.
pub open spec fn br_noise_at<O: Oracle>(
    oracle: &O,
    config: &Config,
    internal_dim: u64,
    glwe_params: GlweParameters,
    i: int,
) -> u64 {
    br_noise(
        oracle,
        config.br_decompositions@[i],
        internal_dim,
        glwe_params,
        config.ciphertext_modulus_log,
        config.security_level,
    )
}

/// Cost of the `i`-th key-switch pool entry in the given outer context.
pub open spec fn ks_complexity_at<O: Oracle>(
    oracle: &O,
    config: &Config,
    input_dim: u64,
    internal_dim: u64,
    i: int,
) -> u64 {
    ks_complexity(
        oracle,
        config.ks_decompositions@[i],
        input_dim,
        internal_dim,
        config.ciphertext_modulus_log,
    )
}

/// Noise of the `i`-th key-switch pool entry in the given outer context.
pub open spec fn ks_noise_at<O: Oracle>(
    oracle: &O,
    config: &Config,
    input_dim: u64,
    internal_dim: u64,
    i: int,
) -> u64 {
    ks_noise(
        oracle,
        config.ks_decompositions@[i],
        input_dim,
        internal_dim,
        config.ciphertext_modulus_log,
        config.security_level,
    )
}

/// The list is in pool order with non-decreasing cost.
pub open spec fn list_ordered(r: Seq<ComplexityNoise>) -> bool {
    forall|k1: int, k2: int|
        0 <= k1 < k2 < r.len() ==> (#[trigger] r[k1]).index < (#[trigger] r[k2]).index
            && r[k1].complexity <= r[k2].complexity
}

/// Strict Pareto shape: costs strictly increase, noises strictly decrease.
pub open spec fn pareto_shape(r: Seq<ComplexityNoise>) -> bool {
    forall|k1: int, k2: int|
        0 <= k1 < k2 < r.len() ==> (#[trigger] r[k1]).complexity < (#[trigger] r[k2]).complexity
            && r[k1].noise > r[k2].noise
}

/// Entry `e` is real (its values are the pool's at its index) and within both
/// budgets.
pub open spec fn br_entry_ok<O: Oracle>(
    oracle: &O,
    config: &Config,
    internal_dim: u64,
    glwe_params: GlweParameters,
    cut_complexity: u128,
    cut_noise: u128,
    e: ComplexityNoise,
) -> bool {
    &&& e.complexity == br_complexity_at(oracle, config, internal_dim, glwe_params, e.index as int)
    &&& e.noise == br_noise_at(oracle, config, internal_dim, glwe_params, e.index as int)
    &&& e.complexity as u128 <= cut_complexity
    &&& e.noise as u128 <= cut_noise
}

/// Pool entry `i` is accounted for: kept, over a budget, or (under the
/// Pareto cut) dominated by a kept entry.
pub open spec fn br_entry_covered<O: Oracle>(
    oracle: &O,
    config: &Config,
    internal_dim: u64,
    glwe_params: GlweParameters,
    cut_complexity: u128,
    cut_noise: u128,
    pareto_cut: bool,
    r: Seq<ComplexityNoise>,
    i: int,
) -> bool {
    ||| exists|k: int| 0 <= k < r.len() && (#[trigger] r[k]).index == i
    ||| br_complexity_at(oracle, config, internal_dim, glwe_params, i) as u128 > cut_complexity
    ||| br_noise_at(oracle, config, internal_dim, glwe_params, i) as u128 > cut_noise
    ||| (pareto_cut && exists|k: int|
        0 <= k < r.len()
            && (#[trigger] r[k]).complexity
            <= br_complexity_at(oracle, config, internal_dim, glwe_params, i)
            && r[k].noise <= br_noise_at(oracle, config, internal_dim, glwe_params, i))
}

/// Same as [`br_entry_ok`] for the key-switch axis.
pub open spec fn ks_entry_ok<O: Oracle>(
    oracle: &O,
    config: &Config,
    input_dim: u64,
    internal_dim: u64,
    cut_complexity: u128,
    cut_noise: u128,
    e: ComplexityNoise,
) -> bool {
    &&& e.complexity == ks_complexity_at(oracle, config, input_dim, internal_dim, e.index as int)
    &&& e.noise == ks_noise_at(oracle, config, input_dim, internal_dim, e.index as int)
    &&& e.complexity as u128 <= cut_complexity
    &&& e.noise as u128 <= cut_noise
}

/// Same as [`br_entry_covered`] for the key-switch axis (the Pareto cut is
/// always active there).
pub open spec fn ks_entry_covered<O: Oracle>(
    oracle: &O,
    config: &Config,
    input_dim: u64,
    internal_dim: u64,
    cut_complexity: u128,
    cut_noise: u128,
    r: Seq<ComplexityNoise>,
    i: int,
) -> bool {
    ||| exists|k: int| 0 <= k < r.len() && (#[trigger] r[k]).index == i
    ||| ks_complexity_at(oracle, config, input_dim, internal_dim, i) as u128 > cut_complexity
    ||| ks_noise_at(oracle, config, input_dim, internal_dim, i) as u128 > cut_noise
    ||| exists|k: int|
        0 <= k < r.len()
            && (#[trigger] r[k]).complexity
            <= ks_complexity_at(oracle, config, input_dim, internal_dim, i)
            && r[k].noise <= ks_noise_at(oracle, config, input_dim, internal_dim, i)
}

/// Extending a list with further entries keeps every pool entry covered.
proof fn lemma_br_covered_extend<O: Oracle>(
    oracle: &O,
    config: &Config,
    internal_dim: u64,
    glwe_params: GlweParameters,
    cut_complexity: u128,
    cut_noise: u128,
    pareto_cut: bool,
    old_list: Seq<ComplexityNoise>,
    new_list: Seq<ComplexityNoise>,
    i: int,
)
    requires
        old_list.len() <= new_list.len(),
        forall|k: int| 0 <= k < old_list.len() ==> #[trigger] new_list[k] == old_list[k],
        br_entry_covered(
            oracle,
            config,
            internal_dim,
            glwe_params,
            cut_complexity,
            cut_noise,
            pareto_cut,
            old_list,
            i,
        ),
    ensures
        br_entry_covered(
            oracle,
            config,
            internal_dim,
            glwe_params,
            cut_complexity,
            cut_noise,
            pareto_cut,
            new_list,
            i,
        ),
{
    if exists|k: int| 0 <= k < old_list.len() && (#[trigger] old_list[k]).index == i {
        let k = choose|k: int| 0 <= k < old_list.len() && (#[trigger] old_list[k]).index == i;
        assert(new_list[k].index == i);
    } else if br_complexity_at(oracle, config, internal_dim, glwe_params, i) as u128
        > cut_complexity || br_noise_at(oracle, config, internal_dim, glwe_params, i) as u128
        > cut_noise {
    } else {
        let k = choose|k: int|
            0 <= k < old_list.len() && (#[trigger] old_list[k]).complexity <= br_complexity_at(
                oracle,
                config,
                internal_dim,
                glwe_params,
                i,
            ) && old_list[k].noise <= br_noise_at(oracle, config, internal_dim, glwe_params, i);
        assert(new_list[k] == old_list[k]);
        assert(new_list[k].complexity <= br_complexity_at(
            oracle,
            config,
            internal_dim,
            glwe_params,
            i,
        ) && new_list[k].noise <= br_noise_at(oracle, config, internal_dim, glwe_params, i));
    }
}

/// Replacing the last entry by one that dominates it keeps every pool entry
/// covered (only done under the Pareto cut).
proof fn lemma_br_covered_replace_last<O: Oracle>(
    oracle: &O,
    config: &Config,
    internal_dim: u64,
    glwe_params: GlweParameters,
    cut_complexity: u128,
    cut_noise: u128,
    old_list: Seq<ComplexityNoise>,
    new_list: Seq<ComplexityNoise>,
    i: int,
)
    requires
        old_list.len() >= 1,
        new_list.len() == old_list.len(),
        forall|k: int| 0 <= k < old_list.len() - 1 ==> #[trigger] new_list[k] == old_list[k],
        new_list[old_list.len() - 1].complexity <= old_list[old_list.len() - 1].complexity,
        new_list[old_list.len() - 1].noise <= old_list[old_list.len() - 1].noise,
        br_entry_ok(
            oracle,
            config,
            internal_dim,
            glwe_params,
            cut_complexity,
            cut_noise,
            old_list[old_list.len() - 1],
        ),
        br_entry_covered(
            oracle,
            config,
            internal_dim,
            glwe_params,
            cut_complexity,
            cut_noise,
            true,
            old_list,
            i,
        ),
    ensures
        br_entry_covered(
            oracle,
            config,
            internal_dim,
            glwe_params,
            cut_complexity,
            cut_noise,
            true,
            new_list,
            i,
        ),
{
    let m = old_list.len() as int;
    if exists|k: int| 0 <= k < old_list.len() && (#[trigger] old_list[k]).index == i {
        let k = choose|k: int| 0 <= k < old_list.len() && (#[trigger] old_list[k]).index == i;
        if k < m - 1 {
            assert(new_list[k].index == i);
        } else {
            // The replaced entry itself was the witness: it carried the
            // pool's values at `i`, and the new last entry dominates it.
            assert(old_list[m - 1].complexity == br_complexity_at(
                oracle,
                config,
                internal_dim,
                glwe_params,
                i,
            ));
            assert(old_list[m - 1].noise == br_noise_at(
                oracle,
                config,
                internal_dim,
                glwe_params,
                i,
            ));
            assert(new_list[m - 1].complexity <= br_complexity_at(
                oracle,
                config,
                internal_dim,
                glwe_params,
                i,
            ) && new_list[m - 1].noise <= br_noise_at(oracle, config, internal_dim, glwe_params, i));
        }
    } else if br_complexity_at(oracle, config, internal_dim, glwe_params, i) as u128
        > cut_complexity || br_noise_at(oracle, config, internal_dim, glwe_params, i) as u128
        > cut_noise {
    } else {
        let k = choose|k: int|
            0 <= k < old_list.len() && (#[trigger] old_list[k]).complexity <= br_complexity_at(
                oracle,
                config,
                internal_dim,
                glwe_params,
                i,
            ) && old_list[k].noise <= br_noise_at(oracle, config, internal_dim, glwe_params, i);
        if k < m - 1 {
            assert(new_list[k] == old_list[k]);
            assert(new_list[k].complexity <= br_complexity_at(
                oracle,
                config,
                internal_dim,
                glwe_params,
                i,
            ) && new_list[k].noise <= br_noise_at(oracle, config, internal_dim, glwe_params, i));
        } else {
            assert(new_list[m - 1].complexity <= br_complexity_at(
                oracle,
                config,
                internal_dim,
                glwe_params,
                i,
            ) && new_list[m - 1].noise <= br_noise_at(oracle, config, internal_dim, glwe_params, i));
        }
    }
}

/// Key-switch version of [`lemma_br_covered_extend`].
proof fn lemma_ks_covered_extend<O: Oracle>(
    oracle: &O,
    config: &Config,
    input_dim: u64,
    internal_dim: u64,
    cut_complexity: u128,
    cut_noise: u128,
    old_list: Seq<ComplexityNoise>,
    new_list: Seq<ComplexityNoise>,
    i: int,
)
    requires
        old_list.len() <= new_list.len(),
        forall|k: int| 0 <= k < old_list.len() ==> #[trigger] new_list[k] == old_list[k],
        ks_entry_covered(
            oracle,
            config,
            input_dim,
            internal_dim,
            cut_complexity,
            cut_noise,
            old_list,
            i,
        ),
    ensures
        ks_entry_covered(
            oracle,
            config,
            input_dim,
            internal_dim,
            cut_complexity,
            cut_noise,
            new_list,
            i,
        ),
{
    if exists|k: int| 0 <= k < old_list.len() && (#[trigger] old_list[k]).index == i {
        let k = choose|k: int| 0 <= k < old_list.len() && (#[trigger] old_list[k]).index == i;
        assert(new_list[k].index == i);
    } else if ks_complexity_at(oracle, config, input_dim, internal_dim, i) as u128 > cut_complexity
        || ks_noise_at(oracle, config, input_dim, internal_dim, i) as u128 > cut_noise {
    } else {
        let k = choose|k: int|
            0 <= k < old_list.len() && (#[trigger] old_list[k]).complexity <= ks_complexity_at(
                oracle,
                config,
                input_dim,
                internal_dim,
                i,
            ) && old_list[k].noise <= ks_noise_at(oracle, config, input_dim, internal_dim, i);
        assert(new_list[k] == old_list[k]);
        assert(new_list[k].complexity <= ks_complexity_at(oracle, config, input_dim, internal_dim, i)
            && new_list[k].noise <= ks_noise_at(oracle, config, input_dim, internal_dim, i));
    }
}

/// Key-switch version of [`lemma_br_covered_replace_last`].
proof fn lemma_ks_covered_replace_last<O: Oracle>(
    oracle: &O,
    config: &Config,
    input_dim: u64,
    internal_dim: u64,
    cut_complexity: u128,
    cut_noise: u128,
    old_list: Seq<ComplexityNoise>,
    new_list: Seq<ComplexityNoise>,
    i: int,
)
    requires
        old_list.len() >= 1,
        new_list.len() == old_list.len(),
        forall|k: int| 0 <= k < old_list.len() - 1 ==> #[trigger] new_list[k] == old_list[k],
        new_list[old_list.len() - 1].complexity <= old_list[old_list.len() - 1].complexity,
        new_list[old_list.len() - 1].noise <= old_list[old_list.len() - 1].noise,
        ks_entry_ok(
            oracle,
            config,
            input_dim,
            internal_dim,
            cut_complexity,
            cut_noise,
            old_list[old_list.len() - 1],
        ),
        ks_entry_covered(
            oracle,
            config,
            input_dim,
            internal_dim,
            cut_complexity,
            cut_noise,
            old_list,
            i,
        ),
    ensures
        ks_entry_covered(
            oracle,
            config,
            input_dim,
            internal_dim,
            cut_complexity,
            cut_noise,
            new_list,
            i,
        ),
{
    let m = old_list.len() as int;
    if exists|k: int| 0 <= k < old_list.len() && (#[trigger] old_list[k]).index == i {
        let k = choose|k: int| 0 <= k < old_list.len() && (#[trigger] old_list[k]).index == i;
        if k < m - 1 {
            assert(new_list[k].index == i);
        } else {
            assert(old_list[m - 1].complexity == ks_complexity_at(
                oracle,
                config,
                input_dim,
                internal_dim,
                i,
            ));
            assert(old_list[m - 1].noise == ks_noise_at(oracle, config, input_dim, internal_dim, i));
            assert(new_list[m - 1].complexity <= ks_complexity_at(
                oracle,
                config,
                input_dim,
                internal_dim,
                i,
            ) && new_list[m - 1].noise <= ks_noise_at(oracle, config, input_dim, internal_dim, i));
        }
    } else if ks_complexity_at(oracle, config, input_dim, internal_dim, i) as u128 > cut_complexity
        || ks_noise_at(oracle, config, input_dim, internal_dim, i) as u128 > cut_noise {
    } else {
        let k = choose|k: int|
            0 <= k < old_list.len() && (#[trigger] old_list[k]).complexity <= ks_complexity_at(
                oracle,
                config,
                input_dim,
                internal_dim,
                i,
            ) && old_list[k].noise <= ks_noise_at(oracle, config, input_dim, internal_dim, i);
        if k < m - 1 {
            assert(new_list[k] == old_list[k]);
            assert(new_list[k].complexity <= ks_complexity_at(
                oracle,
                config,
                input_dim,
                internal_dim,
                i,
            ) && new_list[k].noise <= ks_noise_at(oracle, config, input_dim, internal_dim, i));
        } else {
            assert(new_list[m - 1].complexity <= ks_complexity_at(
                oracle,
                config,
                input_dim,
                internal_dim,
                i,
            ) && new_list[m - 1].noise <= ks_noise_at(oracle, config, input_dim, internal_dim, i));
        }
    }
}

/// One pass over the blind-rotate pool, with an optional Pareto cut.
pub fn pareto_cut_blind_rotate<O: Oracle>(
    oracle: &O,
    consts: &OptimizationDecompositionsConsts,
    internal_dim: u64,
    glwe_params: GlweParameters,
    cut_complexity: u128,
    cut_noise: u128,
    pareto_cut: bool,
) -> (r: Vec<ComplexityNoise>)
    requires
        br_pool_sorted(
            oracle,
            consts.config.br_decompositions@,
            consts.config.ciphertext_modulus_log,
        ),
    ensures
        r@.len() <= consts.config.br_decompositions@.len(),
        forall|k: int|
            0 <= k < r@.len() ==> #[trigger] br_entry_ok(
                oracle,
                consts.config,
                internal_dim,
                glwe_params,
                cut_complexity,
                cut_noise,
                r@[k],
            ),
        forall|k: int| 0 <= k < r@.len() ==> (#[trigger] r@[k]).index
            < consts.config.br_decompositions@.len(),
        list_ordered(r@),
        pareto_cut ==> pareto_shape(r@),
        forall|i: int|
            0 <= i < consts.config.br_decompositions@.len() ==> #[trigger] br_entry_covered(
                oracle,
                consts.config,
                internal_dim,
                glwe_params,
                cut_complexity,
                cut_noise,
                pareto_cut,
                r@,
                i,
            ),
{
    let config = consts.config;
    let pool_len = config.br_decompositions.len();
    let mut quantities: Vec<ComplexityNoise> = Vec::new();
    let mut idx: usize = 0;
    while idx < pool_len
        invariant
            idx <= pool_len,
            pool_len == config.br_decompositions@.len(),
            br_pool_sorted(oracle, config.br_decompositions@, config.ciphertext_modulus_log),
            quantities@.len() <= idx,
            forall|k: int|
                0 <= k < quantities@.len() ==> #[trigger] br_entry_ok(
                    oracle,
                    config,
                    internal_dim,
                    glwe_params,
                    cut_complexity,
                    cut_noise,
                    quantities@[k],
                ),
            forall|k: int| 0 <= k < quantities@.len() ==> (#[trigger] quantities@[k]).index < idx,
            list_ordered(quantities@),
            pareto_cut ==> pareto_shape(quantities@),
            forall|i2: int|
                0 <= i2 < idx ==> #[trigger] br_entry_covered(
                    oracle,
                    config,
                    internal_dim,
                    glwe_params,
                    cut_complexity,
                    cut_noise,
                    pareto_cut,
                    quantities@,
                    i2,
                ),
        ensures
            quantities@.len() <= pool_len,
            forall|k: int|
                0 <= k < quantities@.len() ==> #[trigger] br_entry_ok(
                    oracle,
                    config,
                    internal_dim,
                    glwe_params,
                    cut_complexity,
                    cut_noise,
                    quantities@[k],
                ),
            forall|k: int| 0 <= k < quantities@.len() ==> (#[trigger] quantities@[k]).index
                < pool_len,
            list_ordered(quantities@),
            pareto_cut ==> pareto_shape(quantities@),
            forall|i2: int|
                0 <= i2 < pool_len ==> #[trigger] br_entry_covered(
                    oracle,
                    config,
                    internal_dim,
                    glwe_params,
                    cut_complexity,
                    cut_noise,
                    pareto_cut,
                    quantities@,
                    i2,
                ),
        decreases pool_len - idx,
    {
        let decomp = config.br_decompositions[idx];
        let pbs_parameters = PbsParameters {
            internal_lwe_dimension: internal_dim,
            br_decomposition_parameter: decomp,
            output_glwe_params: glwe_params,
        };
        let complexity_pbs = oracle.pbs_complexity(pbs_parameters, config.ciphertext_modulus_log);
        proof {
            assert(complexity_pbs == br_complexity_at(
                oracle,
                config,
                internal_dim,
                glwe_params,
                idx as int,
            ));
        }
        if cut_complexity < complexity_pbs as u128 {
            // The pool is sorted by complexity: everything further is over
            // the budget as well.
            proof {
                assert forall|i2: int| idx <= i2 < pool_len implies br_complexity_at(
                    oracle,
                    config,
                    internal_dim,
                    glwe_params,
                    i2,
                ) as u128 > cut_complexity by {
                    assert(br_complexity(
                        oracle,
                        config.br_decompositions@[idx as int],
                        internal_dim,
                        glwe_params,
                        config.ciphertext_modulus_log,
                    ) <= br_complexity(
                        oracle,
                        config.br_decompositions@[i2],
                        internal_dim,
                        glwe_params,
                        config.ciphertext_modulus_log,
                    ));
                }
            }
            break;
        }
        let noise_out = oracle.variance_bootstrap(
            pbs_parameters,
            config.ciphertext_modulus_log,
            config.security_level,
        );
        proof {
            assert(noise_out == br_noise_at(oracle, config, internal_dim, glwe_params, idx as int));
        }
        if cut_noise < noise_out as u128 {
            // Noise decreases along the pool: keep scanning.
            idx += 1;
            continue;
        }
        let len = quantities.len();
        if pareto_cut && len > 0 && quantities[len - 1].noise <= noise_out {
            // Dominated by the kept entry with the least noise so far, whose
            // cost is no larger because the pool is sorted.
            proof {
                let m = quantities@.len() as int;
                let last = quantities@[m - 1];
                assert(br_entry_ok(
                    oracle,
                    config,
                    internal_dim,
                    glwe_params,
                    cut_complexity,
                    cut_noise,
                    quantities@[m - 1],
                ));
                assert(br_complexity(
                    oracle,
                    config.br_decompositions@[last.index as int],
                    internal_dim,
                    glwe_params,
                    config.ciphertext_modulus_log,
                ) <= br_complexity(
                    oracle,
                    config.br_decompositions@[idx as int],
                    internal_dim,
                    glwe_params,
                    config.ciphertext_modulus_log,
                ));
                assert(last.complexity <= br_complexity_at(
                    oracle,
                    config,
                    internal_dim,
                    glwe_params,
                    idx as int,
                ) && last.noise <= br_noise_at(oracle, config, internal_dim, glwe_params, idx as int));
            }
            idx += 1;
            continue;
        }
        if pareto_cut && len > 0 && quantities[len - 1].complexity == complexity_pbs {
            // The previous entry is dominated by this one: replace it.
            let ghost old_list = quantities@;
            let popped = quantities.pop().unwrap();
            let entry = ComplexityNoise { index: idx, complexity: complexity_pbs, noise: noise_out };
            quantities.push(entry);
            proof {
                let m = old_list.len() as int;
                assert(quantities@.len() == m);
                assert(popped == old_list[m - 1]);
                assert(br_entry_ok(
                    oracle,
                    config,
                    internal_dim,
                    glwe_params,
                    cut_complexity,
                    cut_noise,
                    old_list[m - 1],
                ));
                assert(quantities@[m - 1] == entry);
                assert(forall|k: int| 0 <= k < m - 1 ==> #[trigger] quantities@[k] == old_list[k]);
                assert(entry.noise < popped.noise);
                assert(entry.complexity == popped.complexity);
                assert forall|k1: int, k2: int| 0 <= k1 < k2 < m implies (#[trigger] quantities@[k1]).index
                    < (#[trigger] quantities@[k2]).index && quantities@[k1].complexity
                    < quantities@[k2].complexity && quantities@[k1].noise > quantities@[k2].noise by {
                    if k2 == m - 1 {
                        assert(old_list[k1].index < popped.index);
                        assert(old_list[k1].complexity < popped.complexity);
                        assert(old_list[k1].noise > popped.noise);
                    }
                }
                assert forall|i2: int|
                    0 <= i2 < idx + 1 implies #[trigger] br_entry_covered(
                    oracle,
                    config,
                    internal_dim,
                    glwe_params,
                    cut_complexity,
                    cut_noise,
                    pareto_cut,
                    quantities@,
                    i2,
                ) by {
                    if i2 < idx {
                        lemma_br_covered_replace_last(
                            oracle,
                            config,
                            internal_dim,
                            glwe_params,
                            cut_complexity,
                            cut_noise,
                            old_list,
                            quantities@,
                            i2,
                        );
                    } else {
                        assert(quantities@[m - 1].index == i2);
                    }
                }
            }
        } else {
            let entry = ComplexityNoise { index: idx, complexity: complexity_pbs, noise: noise_out };
            let ghost old_list = quantities@;
            quantities.push(entry);
            proof {
                let m = old_list.len() as int;
                assert(quantities@.len() == m + 1);
                assert(quantities@[m] == entry);
                assert(forall|k: int| 0 <= k < m ==> #[trigger] quantities@[k] == old_list[k]);
                if m > 0 {
                    let last = old_list[m - 1];
                    assert(br_entry_ok(
                        oracle,
                        config,
                        internal_dim,
                        glwe_params,
                        cut_complexity,
                        cut_noise,
                        old_list[m - 1],
                    ));
                    assert(br_complexity(
                        oracle,
                        config.br_decompositions@[last.index as int],
                        internal_dim,
                        glwe_params,
                        config.ciphertext_modulus_log,
                    ) <= br_complexity(
                        oracle,
                        config.br_decompositions@[idx as int],
                        internal_dim,
                        glwe_params,
                        config.ciphertext_modulus_log,
                    ));
                    assert(last.complexity <= entry.complexity);
                }
                assert forall|k1: int, k2: int| 0 <= k1 < k2 < m + 1 implies (#[trigger] quantities@[k1]).index
                    < (#[trigger] quantities@[k2]).index && quantities@[k1].complexity
                    <= quantities@[k2].complexity by {
                    if k2 == m {
                        assert(old_list[k1].index < idx);
                        if k1 < m - 1 {
                            assert(old_list[k1].complexity <= old_list[m - 1].complexity);
                        }
                    }
                }
                if pareto_cut {
                    assert forall|k1: int, k2: int| 0 <= k1 < k2 < m + 1 implies (#[trigger] quantities@[k1]).complexity
                        < (#[trigger] quantities@[k2]).complexity && quantities@[k1].noise
                        > quantities@[k2].noise by {
                        if k2 == m && m > 0 {
                            assert(entry.noise < old_list[m - 1].noise);
                            assert(old_list[m - 1].complexity != entry.complexity);
                            assert(old_list[m - 1].complexity <= entry.complexity);
                            if k1 < m - 1 {
                                assert(old_list[k1].complexity < old_list[m - 1].complexity);
                                assert(old_list[k1].noise > old_list[m - 1].noise);
                            }
                        }
                    }
                }
                assert forall|i2: int|
                    0 <= i2 < idx + 1 implies #[trigger] br_entry_covered(
                    oracle,
                    config,
                    internal_dim,
                    glwe_params,
                    cut_complexity,
                    cut_noise,
                    pareto_cut,
                    quantities@,
                    i2,
                ) by {
                    if i2 < idx {
                        lemma_br_covered_extend(
                            oracle,
                            config,
                            internal_dim,
                            glwe_params,
                            cut_complexity,
                            cut_noise,
                            pareto_cut,
                            old_list,
                            quantities@,
                            i2,
                        );
                    } else {
                        assert(quantities@[m].index == i2);
                    }
                }
            }
        }
        idx += 1;
    }
    quantities
}

/// Blind-rotate Pareto front with the dominance cut active.
pub fn pareto_blind_rotate<O: Oracle>(
    oracle: &O,
    consts: &OptimizationDecompositionsConsts,
    internal_dim: u64,
    glwe_params: GlweParameters,
    cut_complexity: u128,
    cut_noise: u128,
) -> (r: Vec<ComplexityNoise>)
    requires
        br_pool_sorted(
            oracle,
            consts.config.br_decompositions@,
            consts.config.ciphertext_modulus_log,
        ),
    ensures
        r@.len() <= consts.config.br_decompositions@.len(),
        consts.config.br_decompositions@.len() < 64 ==> r@.len() < 64,
        forall|k: int|
            0 <= k < r@.len() ==> #[trigger] br_entry_ok(
                oracle,
                consts.config,
                internal_dim,
                glwe_params,
                cut_complexity,
                cut_noise,
                r@[k],
            ),
        forall|k: int| 0 <= k < r@.len() ==> (#[trigger] r@[k]).index
            < consts.config.br_decompositions@.len(),
        list_ordered(r@),
        pareto_shape(r@),
        forall|i: int|
            0 <= i < consts.config.br_decompositions@.len() ==> #[trigger] br_entry_covered(
                oracle,
                consts.config,
                internal_dim,
                glwe_params,
                cut_complexity,
                cut_noise,
                true,
                r@,
                i,
            ),
{
    pareto_cut_blind_rotate(oracle, consts, internal_dim, glwe_params, cut_complexity, cut_noise, true)
}

/// Blind-rotate list with only the budget cuts (no dominance pruning).
pub fn cutted_blind_rotate<O: Oracle>(
    oracle: &O,
    consts: &OptimizationDecompositionsConsts,
    internal_dim: u64,
    glwe_params: GlweParameters,
    cut_complexity: u128,
    cut_noise: u128,
) -> (r: Vec<ComplexityNoise>)
    requires
        br_pool_sorted(
            oracle,
            consts.config.br_decompositions@,
            consts.config.ciphertext_modulus_log,
        ),
    ensures
        r@.len() <= consts.config.br_decompositions@.len(),
        forall|k: int|
            0 <= k < r@.len() ==> #[trigger] br_entry_ok(
                oracle,
                consts.config,
                internal_dim,
                glwe_params,
                cut_complexity,
                cut_noise,
                r@[k],
            ),
        list_ordered(r@),
        forall|i: int|
            0 <= i < consts.config.br_decompositions@.len() ==> #[trigger] br_entry_covered(
                oracle,
                consts.config,
                internal_dim,
                glwe_params,
                cut_complexity,
                cut_noise,
                false,
                r@,
                i,
            ),
{
    pareto_cut_blind_rotate(oracle, consts, internal_dim, glwe_params, cut_complexity, cut_noise, false)
}

/// One pass over the key-switch pool; the Pareto cut is always active.
pub fn pareto_keyswitch<O: Oracle>(
    oracle: &O,
    consts: &OptimizationDecompositionsConsts,
    input_dim: u64,
    internal_dim: u64,
    cut_complexity: u128,
    cut_noise: u128,
) -> (r: Vec<ComplexityNoise>)
    requires
        ks_pool_sorted(
            oracle,
            consts.config.ks_decompositions@,
            consts.config.ciphertext_modulus_log,
        ),
    ensures
        r@.len() <= consts.config.ks_decompositions@.len(),
        consts.config.ks_decompositions@.len() < 64 ==> r@.len() < 64,
        forall|k: int|
            0 <= k < r@.len() ==> #[trigger] ks_entry_ok(
                oracle,
                consts.config,
                input_dim,
                internal_dim,
                cut_complexity,
                cut_noise,
                r@[k],
            ),
        forall|k: int| 0 <= k < r@.len() ==> (#[trigger] r@[k]).index
            < consts.config.ks_decompositions@.len(),
        list_ordered(r@),
        pareto_shape(r@),
        forall|i: int|
            0 <= i < consts.config.ks_decompositions@.len() ==> #[trigger] ks_entry_covered(
                oracle,
                consts.config,
                input_dim,
                internal_dim,
                cut_complexity,
                cut_noise,
                r@,
                i,
            ),
{
    let config = consts.config;
    let pool_len = config.ks_decompositions.len();
    let mut quantities: Vec<ComplexityNoise> = Vec::new();
    let mut idx: usize = 0;
    while idx < pool_len
        invariant
            idx <= pool_len,
            pool_len == config.ks_decompositions@.len(),
            ks_pool_sorted(oracle, config.ks_decompositions@, config.ciphertext_modulus_log),
            quantities@.len() <= idx,
            forall|k: int|
                0 <= k < quantities@.len() ==> #[trigger] ks_entry_ok(
                    oracle,
                    config,
                    input_dim,
                    internal_dim,
                    cut_complexity,
                    cut_noise,
                    quantities@[k],
                ),
            forall|k: int| 0 <= k < quantities@.len() ==> (#[trigger] quantities@[k]).index < idx,
            list_ordered(quantities@),
            pareto_shape(quantities@),
            forall|i2: int|
                0 <= i2 < idx ==> #[trigger] ks_entry_covered(
                    oracle,
                    config,
                    input_dim,
                    internal_dim,
                    cut_complexity,
                    cut_noise,
                    quantities@,
                    i2,
                ),
        ensures
            quantities@.len() <= pool_len,
            forall|k: int|
                0 <= k < quantities@.len() ==> #[trigger] ks_entry_ok(
                    oracle,
                    config,
                    input_dim,
                    internal_dim,
                    cut_complexity,
                    cut_noise,
                    quantities@[k],
                ),
            forall|k: int| 0 <= k < quantities@.len() ==> (#[trigger] quantities@[k]).index
                < pool_len,
            list_ordered(quantities@),
            pareto_shape(quantities@),
            forall|i2: int|
                0 <= i2 < pool_len ==> #[trigger] ks_entry_covered(
                    oracle,
                    config,
                    input_dim,
                    internal_dim,
                    cut_complexity,
                    cut_noise,
                    quantities@,
                    i2,
                ),
        decreases pool_len - idx,
    {
        let decomp = config.ks_decompositions[idx];
        let keyswitch_parameter = KeyswitchParameters {
            input_lwe_dimension: input_dim,
            output_lwe_dimension: internal_dim,
            ks_decomposition_parameter: decomp,
        };
        let complexity_keyswitch = oracle.ks_complexity(
            keyswitch_parameter,
            config.ciphertext_modulus_log,
        );
        proof {
            assert(complexity_keyswitch == ks_complexity_at(
                oracle,
                config,
                input_dim,
                internal_dim,
                idx as int,
            ));
        }
        if cut_complexity < complexity_keyswitch as u128 {
            proof {
                assert forall|i2: int| idx <= i2 < pool_len implies ks_complexity_at(
                    oracle,
                    config,
                    input_dim,
                    internal_dim,
                    i2,
                ) as u128 > cut_complexity by {
                    assert(ks_complexity(
                        oracle,
                        config.ks_decompositions@[idx as int],
                        input_dim,
                        internal_dim,
                        config.ciphertext_modulus_log,
                    ) <= ks_complexity(
                        oracle,
                        config.ks_decompositions@[i2],
                        input_dim,
                        internal_dim,
                        config.ciphertext_modulus_log,
                    ));
                }
            }
            break;
        }
        let noise_keyswitch = oracle.variance_keyswitch(
            keyswitch_parameter,
            config.ciphertext_modulus_log,
            config.security_level,
        );
        proof {
            assert(noise_keyswitch == ks_noise_at(
                oracle,
                config,
                input_dim,
                internal_dim,
                idx as int,
            ));
        }
        if cut_noise < noise_keyswitch as u128 {
            idx += 1;
            continue;
        }
        let len = quantities.len();
        if len > 0 && quantities[len - 1].noise <= noise_keyswitch {
            proof {
                let m = quantities@.len() as int;
                let last = quantities@[m - 1];
                assert(ks_entry_ok(
                    oracle,
                    config,
                    input_dim,
                    internal_dim,
                    cut_complexity,
                    cut_noise,
                    quantities@[m - 1],
                ));
                assert(ks_complexity(
                    oracle,
                    config.ks_decompositions@[last.index as int],
                    input_dim,
                    internal_dim,
                    config.ciphertext_modulus_log,
                ) <= ks_complexity(
                    oracle,
                    config.ks_decompositions@[idx as int],
                    input_dim,
                    internal_dim,
                    config.ciphertext_modulus_log,
                ));
                assert(last.complexity <= ks_complexity_at(
                    oracle,
                    config,
                    input_dim,
                    internal_dim,
                    idx as int,
                ) && last.noise <= ks_noise_at(oracle, config, input_dim, internal_dim, idx as int));
            }
            idx += 1;
            continue;
        }
        if len > 0 && quantities[len - 1].complexity == complexity_keyswitch {
            let ghost old_list = quantities@;
            let popped = quantities.pop().unwrap();
            let entry = ComplexityNoise {
                index: idx,
                complexity: complexity_keyswitch,
                noise: noise_keyswitch,
            };
            quantities.push(entry);
            proof {
                let m = old_list.len() as int;
                assert(quantities@.len() == m);
                assert(popped == old_list[m - 1]);
                assert(ks_entry_ok(
                    oracle,
                    config,
                    input_dim,
                    internal_dim,
                    cut_complexity,
                    cut_noise,
                    old_list[m - 1],
                ));
                assert(quantities@[m - 1] == entry);
                assert(forall|k: int| 0 <= k < m - 1 ==> #[trigger] quantities@[k] == old_list[k]);
                assert(entry.noise < popped.noise);
                assert(entry.complexity == popped.complexity);
                assert forall|k1: int, k2: int| 0 <= k1 < k2 < m implies (#[trigger] quantities@[k1]).index
                    < (#[trigger] quantities@[k2]).index && quantities@[k1].complexity
                    < quantities@[k2].complexity && quantities@[k1].noise > quantities@[k2].noise by {
                    if k2 == m - 1 {
                        assert(old_list[k1].index < popped.index);
                        assert(old_list[k1].complexity < popped.complexity);
                        assert(old_list[k1].noise > popped.noise);
                    }
                }
                assert forall|i2: int|
                    0 <= i2 < idx + 1 implies #[trigger] ks_entry_covered(
                    oracle,
                    config,
                    input_dim,
                    internal_dim,
                    cut_complexity,
                    cut_noise,
                    quantities@,
                    i2,
                ) by {
                    if i2 < idx {
                        lemma_ks_covered_replace_last(
                            oracle,
                            config,
                            input_dim,
                            internal_dim,
                            cut_complexity,
                            cut_noise,
                            old_list,
                            quantities@,
                            i2,
                        );
                    } else {
                        assert(quantities@[m - 1].index == i2);
                    }
                }
            }
        } else {
            let entry = ComplexityNoise {
                index: idx,
                complexity: complexity_keyswitch,
                noise: noise_keyswitch,
            };
            let ghost old_list = quantities@;
            quantities.push(entry);
            proof {
                let m = old_list.len() as int;
                assert(quantities@.len() == m + 1);
                assert(quantities@[m] == entry);
                assert(forall|k: int| 0 <= k < m ==> #[trigger] quantities@[k] == old_list[k]);
                if m > 0 {
                    let last = old_list[m - 1];
                    assert(ks_entry_ok(
                        oracle,
                        config,
                        input_dim,
                        internal_dim,
                        cut_complexity,
                        cut_noise,
                        old_list[m - 1],
                    ));
                    assert(ks_complexity(
                        oracle,
                        config.ks_decompositions@[last.index as int],
                        input_dim,
                        internal_dim,
                        config.ciphertext_modulus_log,
                    ) <= ks_complexity(
                        oracle,
                        config.ks_decompositions@[idx as int],
                        input_dim,
                        internal_dim,
                        config.ciphertext_modulus_log,
                    ));
                    assert(last.complexity <= entry.complexity);
                }
                assert forall|k1: int, k2: int| 0 <= k1 < k2 < m + 1 implies (#[trigger] quantities@[k1]).index
                    < (#[trigger] quantities@[k2]).index && quantities@[k1].complexity
                    <= quantities@[k2].complexity by {
                    if k2 == m {
                        assert(old_list[k1].index < idx);
                        if k1 < m - 1 {
                            assert(old_list[k1].complexity <= old_list[m - 1].complexity);
                        }
                    }
                }
                assert forall|k1: int, k2: int| 0 <= k1 < k2 < m + 1 implies (#[trigger] quantities@[k1]).complexity
                    < (#[trigger] quantities@[k2]).complexity && quantities@[k1].noise
                    > quantities@[k2].noise by {
                    if k2 == m && m > 0 {
                        assert(entry.noise < old_list[m - 1].noise);
                        assert(old_list[m - 1].complexity != entry.complexity);
                        assert(old_list[m - 1].complexity <= entry.complexity);
                        if k1 < m - 1 {
                            assert(old_list[k1].complexity < old_list[m - 1].complexity);
                            assert(old_list[k1].noise > old_list[m - 1].noise);
                        }
                    }
                }
                assert forall|i2: int|
                    0 <= i2 < idx + 1 implies #[trigger] ks_entry_covered(
                    oracle,
                    config,
                    input_dim,
                    internal_dim,
                    cut_complexity,
                    cut_noise,
                    quantities@,
                    i2,
                ) by {
                    if i2 < idx {
                        lemma_ks_covered_extend(
                            oracle,
                            config,
                            input_dim,
                            internal_dim,
                            cut_complexity,
                            cut_noise,
                            old_list,
                            quantities@,
                            i2,
                        );
                    } else {
                        assert(quantities@[m].index == i2);
                    }
                }
            }
        }
        idx += 1;
    }
    quantities
}

} // verus!
