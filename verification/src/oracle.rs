//! The oracle interface of the optimizer.
//!
//! The search core consumes closed-form noise and cost formulas through this
//! trait and never looks inside them.  All quantities are fixed-point
//! integers: variances and costs are plain `u64` magnitudes in a scale the
//! oracle chooses, probabilities are fractions of [`PROB_ONE`].
//!
//! Every pruning cut of the search relies on a monotonicity property of the
//! formulas.  Those properties are stated here as proof obligations (`law_*`
//! functions), so an implementation cannot be plugged in without proving the
//! assumptions the cuts are justified by.

use vstd::prelude::*;

use crate::parameters::{
    BrDecompositionParameters, GlweParameters, KsDecompositionParameters, KeyswitchParameters,
    PbsParameters,
};

verus! {

/// Probabilities are fixed-point fractions with this value standing for 1.0.
pub const PROB_ONE: u64 = 0x4000_0000_0000_0000;

/// Noise and cost formulas, a security table and an error-probability model,
/// all deterministic and total.
///
/// Exec methods must return exactly their `spec_*` counterpart; the `law_*`
/// proof obligations state the monotonicity assumptions that the search cuts
/// exploit.
pub trait Oracle: Sized {
    /// Cost of one programmable bootstrap.
    spec fn spec_pbs_complexity(&self, params: PbsParameters, ciphertext_modulus_log: u32) -> u64;

    fn pbs_complexity(&self, params: PbsParameters, ciphertext_modulus_log: u32) -> (r: u64)
        ensures
            r == self.spec_pbs_complexity(params, ciphertext_modulus_log),
    ;

    /// Output noise variance of one programmable bootstrap, keys drawn at the
    /// minimal variance the security level allows.
    spec fn spec_variance_bootstrap(
        &self,
        params: PbsParameters,
        ciphertext_modulus_log: u32,
        security_level: u64,
    ) -> u64;

    fn variance_bootstrap(
        &self,
        params: PbsParameters,
        ciphertext_modulus_log: u32,
        security_level: u64,
    ) -> (r: u64)
        ensures
            r == self.spec_variance_bootstrap(params, ciphertext_modulus_log, security_level),
    ;

    /// Cost of one key-switch.
    spec fn spec_ks_complexity(&self, params: KeyswitchParameters, ciphertext_modulus_log: u32) -> u64;

    fn ks_complexity(&self, params: KeyswitchParameters, ciphertext_modulus_log: u32) -> (r: u64)
        ensures
            r == self.spec_ks_complexity(params, ciphertext_modulus_log),
    ;

    /// Additive noise variance of one key-switch.
    spec fn spec_variance_keyswitch(
        &self,
        params: KeyswitchParameters,
        ciphertext_modulus_log: u32,
        security_level: u64,
    ) -> u64;

    fn variance_keyswitch(
        &self,
        params: KeyswitchParameters,
        ciphertext_modulus_log: u32,
        security_level: u64,
    ) -> (r: u64)
        ensures
            r == self.spec_variance_keyswitch(params, ciphertext_modulus_log, security_level),
    ;

    /// Noise variance of switching the ciphertext modulus before a bootstrap.
    spec fn spec_modulus_switching_noise(
        &self,
        internal_lwe_dimension: u64,
        polynomial_size: u64,
        ciphertext_modulus_log: u32,
    ) -> u64;

    fn modulus_switching_noise(
        &self,
        internal_lwe_dimension: u64,
        polynomial_size: u64,
        ciphertext_modulus_log: u32,
    ) -> (r: u64)
        ensures
            r == self.spec_modulus_switching_noise(
                internal_lwe_dimension,
                polynomial_size,
                ciphertext_modulus_log,
            ),
    ;

    /// Minimal key variance the security level allows for these GLWE
    /// parameters (a fresh ciphertext is at least this noisy).
    spec fn spec_minimal_variance_glwe(
        &self,
        glwe_params: GlweParameters,
        ciphertext_modulus_log: u32,
        security_level: u64,
    ) -> u64;

    fn minimal_variance_glwe(
        &self,
        glwe_params: GlweParameters,
        ciphertext_modulus_log: u32,
        security_level: u64,
    ) -> (r: u64)
        ensures
            r == self.spec_minimal_variance_glwe(glwe_params, ciphertext_modulus_log, security_level),
    ;

    /// Largest total variance at which the failure probability of reading a
    /// `precision`-bit message stays below `max_error_probability`.
    spec fn spec_safe_variance_bound(
        &self,
        precision: u64,
        ciphertext_modulus_log: u32,
        max_error_probability: u64,
    ) -> u64;

    fn safe_variance_bound(
        &self,
        precision: u64,
        ciphertext_modulus_log: u32,
        max_error_probability: u64,
    ) -> (r: u64)
        ensures
            r == self.spec_safe_variance_bound(precision, ciphertext_modulus_log, max_error_probability),
    ;

    /// Failure probability of a result of variance `noise_max` against the
    /// bound `safe_variance` that was derived from `max_error_probability`.
    spec fn spec_error_probability(
        &self,
        max_error_probability: u64,
        safe_variance: u64,
        noise_max: u128,
    ) -> u64;

    fn error_probability(
        &self,
        max_error_probability: u64,
        safe_variance: u64,
        noise_max: u128,
    ) -> (r: u64)
        ensures
            r == self.spec_error_probability(max_error_probability, safe_variance, noise_max),
    ;

    /// Modulus-switching noise does not decrease with the internal LWE
    /// dimension (the outer search breaks on the first infeasible dimension).
    proof fn law_modulus_switching_noise_monotonic(
        &self,
        internal_dim1: u64,
        internal_dim2: u64,
        polynomial_size: u64,
        ciphertext_modulus_log: u32,
    )
        requires
            internal_dim1 <= internal_dim2,
        ensures
            self.spec_modulus_switching_noise(internal_dim1, polynomial_size, ciphertext_modulus_log)
                <= self.spec_modulus_switching_noise(
                internal_dim2,
                polynomial_size,
                ciphertext_modulus_log,
            ),
    ;

    /// The failure probability is a probability, and a result whose variance
    /// meets the safe bound meets the caller's probability bound.
    proof fn law_error_probability_bounds(
        &self,
        max_error_probability: u64,
        safe_variance: u64,
        noise_max: u128,
    )
        ensures
            self.spec_error_probability(max_error_probability, safe_variance, noise_max) <= PROB_ONE,
            noise_max <= safe_variance ==> self.spec_error_probability(
                max_error_probability,
                safe_variance,
                noise_max,
            ) <= max_error_probability,
    ;

    /// Failure probability does not decrease with the result's variance.
    proof fn law_error_probability_monotonic(
        &self,
        max_error_probability: u64,
        safe_variance: u64,
        noise1: u128,
        noise2: u128,
    )
        requires
            noise1 <= noise2,
        ensures
            self.spec_error_probability(max_error_probability, safe_variance, noise1)
                <= self.spec_error_probability(max_error_probability, safe_variance, noise2),
    ;

    /// A bootstrap refreshes noise: its output is at least as noisy as a
    /// fresh ciphertext under the same GLWE parameters.
    proof fn law_variance_bootstrap_refreshes(
        &self,
        params: PbsParameters,
        ciphertext_modulus_log: u32,
        security_level: u64,
    )
        ensures
            self.spec_minimal_variance_glwe(
                params.output_glwe_params,
                ciphertext_modulus_log,
                security_level,
            ) <= self.spec_variance_bootstrap(params, ciphertext_modulus_log, security_level),
    ;
}

/// Bootstrap cost of one blind-rotate decomposition in an outer context.
pub open spec fn br_complexity<O: Oracle>(
    oracle: &O,
    decomp: BrDecompositionParameters,
    internal_dim: u64,
    glwe_params: GlweParameters,
    ciphertext_modulus_log: u32,
) -> u64 {
    oracle.spec_pbs_complexity(
        PbsParameters {
            internal_lwe_dimension: internal_dim,
            br_decomposition_parameter: decomp,
            output_glwe_params: glwe_params,
        },
        ciphertext_modulus_log,
    )
}

/// Bootstrap output noise of one blind-rotate decomposition.
pub open spec fn br_noise<O: Oracle>(
    oracle: &O,
    decomp: BrDecompositionParameters,
    internal_dim: u64,
    glwe_params: GlweParameters,
    ciphertext_modulus_log: u32,
    security_level: u64,
) -> u64 {
    oracle.spec_variance_bootstrap(
        PbsParameters {
            internal_lwe_dimension: internal_dim,
            br_decomposition_parameter: decomp,
            output_glwe_params: glwe_params,
        },
        ciphertext_modulus_log,
        security_level,
    )
}

/// Key-switch cost of one decomposition in an outer context.
pub open spec fn ks_complexity<O: Oracle>(
    oracle: &O,
    decomp: KsDecompositionParameters,
    input_dim: u64,
    internal_dim: u64,
    ciphertext_modulus_log: u32,
) -> u64 {
    oracle.spec_ks_complexity(
        KeyswitchParameters {
            input_lwe_dimension: input_dim,
            output_lwe_dimension: internal_dim,
            ks_decomposition_parameter: decomp,
        },
        ciphertext_modulus_log,
    )
}

/// Key-switch noise of one decomposition in an outer context.
pub open spec fn ks_noise<O: Oracle>(
    oracle: &O,
    decomp: KsDecompositionParameters,
    input_dim: u64,
    internal_dim: u64,
    ciphertext_modulus_log: u32,
    security_level: u64,
) -> u64 {
    oracle.spec_variance_keyswitch(
        KeyswitchParameters {
            input_lwe_dimension: input_dim,
            output_lwe_dimension: internal_dim,
            ks_decomposition_parameter: decomp,
        },
        ciphertext_modulus_log,
        security_level,
    )
}

/// The blind-rotate pool is sorted by increasing analytical complexity,
/// whatever the outer context.
pub open spec fn br_pool_sorted<O: Oracle>(
    oracle: &O,
    pool: Seq<BrDecompositionParameters>,
    ciphertext_modulus_log: u32,
) -> bool {
    forall|i: int, j: int, internal_dim: u64, glwe_params: GlweParameters|
        0 <= i <= j < pool.len() ==> #[trigger] br_complexity(
            oracle,
            pool[i],
            internal_dim,
            glwe_params,
            ciphertext_modulus_log,
        ) <= #[trigger] br_complexity(
            oracle,
            pool[j],
            internal_dim,
            glwe_params,
            ciphertext_modulus_log,
        )
}

/// The key-switch pool is sorted by increasing analytical complexity,
/// whatever the outer context.
pub open spec fn ks_pool_sorted<O: Oracle>(
    oracle: &O,
    pool: Seq<KsDecompositionParameters>,
    ciphertext_modulus_log: u32,
) -> bool {
    forall|i: int, j: int, input_dim: u64, internal_dim: u64|
        0 <= i <= j < pool.len() ==> #[trigger] ks_complexity(
            oracle,
            pool[i],
            input_dim,
            internal_dim,
            ciphertext_modulus_log,
        ) <= #[trigger] ks_complexity(
            oracle,
            pool[j],
            input_dim,
            internal_dim,
            ciphertext_modulus_log,
        )
}

} // verus!
