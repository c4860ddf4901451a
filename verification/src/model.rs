//! A closed-form reference oracle.
//!
//! Real noise formulas live outside this crate; this model stands in for them
//! in tests and demonstrates that the [`Oracle`](crate::oracle::Oracle) laws
//! can be met.  Its formulas are deliberately simple integer shapes with the
//! right monotonicity: costs grow with the decomposition level, bootstrap
//! noise shrinks with it and never falls under the fresh-key variance, and
//! the failure probability steps up with the output variance.

use vstd::prelude::*;

use crate::oracle::{Oracle, PROB_ONE};
use crate::parameters::{GlweParameters, KeyswitchParameters, PbsParameters};

verus! {

/// Clamp a value to 32 bits so that the model's products stay exact.
pub open spec fn spec_clamp32(x: u64) -> u64 {
    if x > 0xFFFF_FFFF {
        0xFFFF_FFFF
    } else {
        x
    }
}

fn clamp32(x: u64) -> (r: u64)
    ensures
        r == spec_clamp32(x),
{
    if x > 0xFFFF_FFFF {
        0xFFFF_FFFF
    } else {
        x
    }
}

/// The closed-form reference oracle.
pub struct ModelOracle;

impl Oracle for ModelOracle {
    open spec fn spec_pbs_complexity(&self, params: PbsParameters, ciphertext_modulus_log: u32) -> u64 {
        (spec_clamp32(params.br_decomposition_parameter.level) * 0x1_0000 + spec_clamp32(
            params.internal_lwe_dimension,
        ) + spec_clamp32(params.output_glwe_params.glwe_dimension)) as u64
    }

    fn pbs_complexity(&self, params: PbsParameters, ciphertext_modulus_log: u32) -> (r: u64) {
        clamp32(params.br_decomposition_parameter.level) * 0x1_0000 + clamp32(
            params.internal_lwe_dimension,
        ) + clamp32(params.output_glwe_params.glwe_dimension)
    }

    open spec fn spec_variance_bootstrap(
        &self,
        params: PbsParameters,
        ciphertext_modulus_log: u32,
        security_level: u64,
    ) -> u64 {
        (self.spec_minimal_variance_glwe(
            params.output_glwe_params,
            ciphertext_modulus_log,
            security_level,
        ) + 0x1_0000_0000u64 / (spec_clamp32(params.br_decomposition_parameter.level) + 1) as u64)
            as u64
    }

    fn variance_bootstrap(
        &self,
        params: PbsParameters,
        ciphertext_modulus_log: u32,
        security_level: u64,
    ) -> (r: u64) {
        self.minimal_variance_glwe(params.output_glwe_params, ciphertext_modulus_log, security_level)
            + 0x1_0000_0000u64 / (clamp32(params.br_decomposition_parameter.level) + 1)
    }

    open spec fn spec_ks_complexity(&self, params: KeyswitchParameters, ciphertext_modulus_log: u32) -> u64 {
        (spec_clamp32(params.ks_decomposition_parameter.level) * 0x100 + spec_clamp32(
            params.input_lwe_dimension,
        ) / 0x100) as u64
    }

    fn ks_complexity(&self, params: KeyswitchParameters, ciphertext_modulus_log: u32) -> (r: u64) {
        clamp32(params.ks_decomposition_parameter.level) * 0x100 + clamp32(
            params.input_lwe_dimension,
        ) / 0x100
    }

    open spec fn spec_variance_keyswitch(
        &self,
        params: KeyswitchParameters,
        ciphertext_modulus_log: u32,
        security_level: u64,
    ) -> u64 {
        (0x1000_0000u64 / (spec_clamp32(params.ks_decomposition_parameter.level) + 1) as u64 + 1)
            as u64
    }

    fn variance_keyswitch(
        &self,
        params: KeyswitchParameters,
        ciphertext_modulus_log: u32,
        security_level: u64,
    ) -> (r: u64) {
        0x1000_0000u64 / (clamp32(params.ks_decomposition_parameter.level) + 1) + 1
    }

    open spec fn spec_modulus_switching_noise(
        &self,
        internal_lwe_dimension: u64,
        polynomial_size: u64,
        ciphertext_modulus_log: u32,
    ) -> u64 {
        (internal_lwe_dimension / 4 + spec_clamp32(polynomial_size)) as u64
    }

    fn modulus_switching_noise(
        &self,
        internal_lwe_dimension: u64,
        polynomial_size: u64,
        ciphertext_modulus_log: u32,
    ) -> (r: u64) {
        internal_lwe_dimension / 4 + clamp32(polynomial_size)
    }

    open spec fn spec_minimal_variance_glwe(
        &self,
        glwe_params: GlweParameters,
        ciphertext_modulus_log: u32,
        security_level: u64,
    ) -> u64 {
        (0x100 + spec_clamp32(security_level)) as u64
    }

    fn minimal_variance_glwe(
        &self,
        glwe_params: GlweParameters,
        ciphertext_modulus_log: u32,
        security_level: u64,
    ) -> (r: u64) {
        0x100 + clamp32(security_level)
    }

    open spec fn spec_safe_variance_bound(
        &self,
        precision: u64,
        ciphertext_modulus_log: u32,
        max_error_probability: u64,
    ) -> u64 {
        if precision >= 48 {
            1u64
        } else {
            0x1_0000_0000_0000u64 >> precision
        }
    }

    fn safe_variance_bound(
        &self,
        precision: u64,
        ciphertext_modulus_log: u32,
        max_error_probability: u64,
    ) -> (r: u64) {
        if precision >= 48 {
            1u64
        } else {
            0x1_0000_0000_0000u64 >> precision
        }
    }

    open spec fn spec_error_probability(
        &self,
        max_error_probability: u64,
        safe_variance: u64,
        noise_max: u128,
    ) -> u64 {
        let bound = if max_error_probability > PROB_ONE {
            PROB_ONE
        } else {
            max_error_probability
        };
        if noise_max <= safe_variance as u128 {
            if noise_max <= (safe_variance / 2) as u128 {
                (bound / 2) as u64
            } else {
                bound
            }
        } else {
            PROB_ONE
        }
    }

    fn error_probability(
        &self,
        max_error_probability: u64,
        safe_variance: u64,
        noise_max: u128,
    ) -> (r: u64) {
        let bound = if max_error_probability > PROB_ONE {
            PROB_ONE
        } else {
            max_error_probability
        };
        if noise_max <= safe_variance as u128 {
            if noise_max <= (safe_variance / 2) as u128 {
                bound / 2
            } else {
                bound
            }
        } else {
            PROB_ONE
        }
    }

    proof fn law_modulus_switching_noise_monotonic(
        &self,
        internal_dim1: u64,
        internal_dim2: u64,
        polynomial_size: u64,
        ciphertext_modulus_log: u32,
    ) {
        vstd::arithmetic::div_mod::lemma_div_is_ordered(
            internal_dim1 as int,
            internal_dim2 as int,
            4,
        );
    }

    proof fn law_error_probability_bounds(
        &self,
        max_error_probability: u64,
        safe_variance: u64,
        noise_max: u128,
    ) {
    }

    proof fn law_error_probability_monotonic(
        &self,
        max_error_probability: u64,
        safe_variance: u64,
        noise1: u128,
        noise2: u128,
    ) {
    }

    proof fn law_variance_bootstrap_refreshes(
        &self,
        params: PbsParameters,
        ciphertext_modulus_log: u32,
        security_level: u64,
    ) {
    }
}

} // verus!
