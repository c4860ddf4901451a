//! The synthetic two-bootstrap circuit of the cross-check entry point.
//!
//! It models `input -> dot -> lookup -> weighted dot -> lookup`: two
//! bootstraps, each preceded by a dot product of `sum_size` terms, the second
//! one weighted.  Feasibility and failure probability coincide with the
//! atomic pattern's, so optimizing this circuit must agree with the atomic
//! search; the total cost is twice the per-pattern cost.

use vstd::prelude::*;

use crate::dag::AnalyzedDag;
use crate::oracle::{Oracle, PROB_ONE};

verus! {

/// A two-bootstrap chain with a weighted middle dot product.
pub struct V0Dag<'a, O: Oracle> {
    pub oracle: &'a O,
    pub sum_size: u32,
    pub noise_factor: u32,
    pub safe_variance: u64,
    pub max_error_probability: u64,
}

impl<'a, O: Oracle> V0Dag<'a, O> {
    /// The middle weight, floored at one and capped so that all fixed-point
    /// arithmetic stays exact.
    pub open spec fn spec_weight(&self) -> int {
        if 1 <= self.noise_factor <= 0x10_0000 {
            self.noise_factor as int
        } else {
            1
        }
    }

    /// Worst output variance: the weighted bootstrap noise plus key-switch
    /// and modulus-switching noise, exactly as in the atomic pattern.
    pub open spec fn spec_variance(&self, br_noise: u64, ks_noise: u64, ms_noise: u64) -> int {
        self.spec_weight() * self.spec_weight() * br_noise + ks_noise + ms_noise
    }

    fn weight(&self) -> (r: u64)
        ensures
            r == self.spec_weight(),
            1 <= r <= 0x10_0000,
    {
        if 1 <= self.noise_factor && self.noise_factor <= 0x10_0000 {
            self.noise_factor as u64
        } else {
            1
        }
    }

    fn variance(&self, br_noise: u64, ks_noise: u64, ms_noise: u64) -> (r: u128)
        ensures
            r == self.spec_variance(br_noise, ks_noise, ms_noise),
    {
        let w = self.weight();
        proof {
            vstd::arithmetic::mul::lemma_mul_upper_bound(
                w as int,
                0x10_0000,
                w as int,
                0x10_0000,
            );
            vstd::arithmetic::mul::lemma_mul_upper_bound(
                (w as int) * (w as int),
                0x100_0000_0000,
                br_noise as int,
                0xFFFF_FFFF_FFFF_FFFF,
            );
        }
        (w as u128) * (w as u128) * (br_noise as u128) + ks_noise as u128 + ms_noise as u128
    }
}

impl<'a, O: Oracle> AnalyzedDag for V0Dag<'a, O> {
    open spec fn spec_nb_luts(&self) -> u64 {
        2
    }

    fn nb_luts(&self) -> (r: u64) {
        2
    }

    open spec fn spec_has_only_luts_with_inputs(&self) -> bool {
        false
    }

    fn has_only_luts_with_inputs(&self) -> (r: bool) {
        false
    }

    open spec fn spec_safe_variance(&self) -> u64 {
        self.safe_variance
    }

    fn safe_variance(&self) -> (r: u64) {
        self.safe_variance
    }

    open spec fn spec_max_error_probability(&self) -> u64 {
        self.max_error_probability
    }

    open spec fn spec_complexity_cost(&self, input_lwe_dimension: u64, one_lut_cost: u128) -> u128 {
        (2 * (self.sum_size * input_lwe_dimension) + 2 * one_lut_cost) as u128
    }

    fn complexity_cost(&self, input_lwe_dimension: u64, one_lut_cost: u128) -> (r: u128) {
        proof {
            vstd::arithmetic::mul::lemma_mul_upper_bound(
                self.sum_size as int,
                0xFFFF_FFFF,
                input_lwe_dimension as int,
                0xFFFF_FFFF_FFFF_FFFF,
            );
        }
        2 * ((self.sum_size as u128) * (input_lwe_dimension as u128)) + 2 * one_lut_cost
    }

    open spec fn spec_feasible(
        &self,
        input_noise: u64,
        br_noise: u64,
        ks_noise: u64,
        modulus_switching_noise: u64,
    ) -> bool {
        &&& self.spec_variance(br_noise, ks_noise, modulus_switching_noise) <= self.safe_variance
        &&& input_noise + modulus_switching_noise <= self.safe_variance
    }

    fn feasible(
        &self,
        input_noise: u64,
        br_noise: u64,
        ks_noise: u64,
        modulus_switching_noise: u64,
    ) -> (r: bool) {
        let v = self.variance(br_noise, ks_noise, modulus_switching_noise);
        v <= self.safe_variance as u128 && input_noise as u128 + modulus_switching_noise as u128
            <= self.safe_variance as u128
    }

    open spec fn spec_peek_p_error(
        &self,
        input_noise: u64,
        br_noise: u64,
        ks_noise: u64,
        modulus_switching_noise: u64,
    ) -> (u64, u128) {
        (
            self.oracle.spec_error_probability(
                self.max_error_probability,
                self.safe_variance,
                self.spec_variance(br_noise, ks_noise, modulus_switching_noise) as u128,
            ),
            self.spec_variance(br_noise, ks_noise, modulus_switching_noise) as u128,
        )
    }

    fn peek_p_error(
        &self,
        input_noise: u64,
        br_noise: u64,
        ks_noise: u64,
        modulus_switching_noise: u64,
    ) -> (r: (u64, u128)) {
        let v = self.variance(br_noise, ks_noise, modulus_switching_noise);
        let p = self.oracle.error_probability(self.max_error_probability, self.safe_variance, v);
        (p, v)
    }

    open spec fn spec_global_p_error(
        &self,
        input_noise: u64,
        br_noise: u64,
        ks_noise: u64,
        modulus_switching_noise: u64,
    ) -> u64 {
        success_squared_complement(
            self.spec_peek_p_error(
                input_noise,
                br_noise,
                ks_noise,
                modulus_switching_noise,
            ).0,
        )
    }

    fn global_p_error(
        &self,
        input_noise: u64,
        br_noise: u64,
        ks_noise: u64,
        modulus_switching_noise: u64,
    ) -> (r: u64) {
        let v = self.variance(br_noise, ks_noise, modulus_switching_noise);
        let p = self.oracle.error_probability(self.max_error_probability, self.safe_variance, v);
        let q: u64 = if p > PROB_ONE {
            0
        } else {
            PROB_ONE - p
        };
        proof {
            lemma_success_square_bounds(q as int);
        }
        let success_squared: u128 = (q as u128) * (q as u128) / (PROB_ONE as u128);
        PROB_ONE - (success_squared as u64)
    }

    proof fn law_feasible_antitone(
        &self,
        input_noise1: u64,
        br_noise1: u64,
        ks_noise1: u64,
        ms_noise1: u64,
        input_noise2: u64,
        br_noise2: u64,
        ks_noise2: u64,
        ms_noise2: u64,
    ) {
        vstd::arithmetic::mul::lemma_mul_inequality(
            br_noise1 as int,
            br_noise2 as int,
            self.spec_weight() * self.spec_weight(),
        );
    }

    proof fn law_feasible_input_bound(
        &self,
        input_noise: u64,
        br_noise: u64,
        ks_noise: u64,
        ms_noise: u64,
    ) {
    }

    proof fn law_feasible_lut_bound(
        &self,
        input_noise: u64,
        br_noise: u64,
        ks_noise: u64,
        ms_noise: u64,
    ) {
        let w = self.spec_weight();
        assert(w * w * br_noise >= br_noise) by (nonlinear_arith)
            requires
                w >= 1,
                br_noise >= 0,
        ;
    }

    proof fn law_feasible_input_lut_bound(
        &self,
        input_noise: u64,
        br_noise: u64,
        ks_noise: u64,
        ms_noise: u64,
    ) {
    }

    proof fn law_complexity_linear(&self, input_lwe_dimension: u64, one_lut_cost: u128) {
        vstd::arithmetic::mul::lemma_mul_upper_bound(
            self.sum_size as int,
            0xFFFF_FFFF,
            input_lwe_dimension as int,
            0xFFFF_FFFF_FFFF_FFFF,
        );
    }

    proof fn law_no_luts_independent(
        &self,
        input_noise: u64,
        br_noise: u64,
        ks_noise: u64,
        ms_noise: u64,
    ) {
    }

    proof fn law_p_error_bounds(
        &self,
        input_noise: u64,
        br_noise: u64,
        ks_noise: u64,
        ms_noise: u64,
    ) {
        let v = self.spec_variance(br_noise, ks_noise, ms_noise) as u128;
        self.oracle.law_error_probability_bounds(
            self.max_error_probability,
            self.safe_variance,
            v,
        );
        let p = self.oracle.spec_error_probability(
            self.max_error_probability,
            self.safe_variance,
            v,
        );
        lemma_success_square_bounds(PROB_ONE - p);
    }

    proof fn law_p_error_monotonic(
        &self,
        input_noise1: u64,
        br_noise1: u64,
        ks_noise1: u64,
        ms_noise1: u64,
        input_noise2: u64,
        br_noise2: u64,
        ks_noise2: u64,
        ms_noise2: u64,
    ) {
        let w = self.spec_weight();
        vstd::arithmetic::mul::lemma_mul_upper_bound(w, 0x10_0000, w, 0x10_0000);
        vstd::arithmetic::mul::lemma_mul_upper_bound(
            w * w,
            0x100_0000_0000,
            br_noise1 as int,
            0xFFFF_FFFF_FFFF_FFFF,
        );
        vstd::arithmetic::mul::lemma_mul_upper_bound(
            w * w,
            0x100_0000_0000,
            br_noise2 as int,
            0xFFFF_FFFF_FFFF_FFFF,
        );
        vstd::arithmetic::mul::lemma_mul_inequality(
            br_noise1 as int,
            br_noise2 as int,
            self.spec_weight() * self.spec_weight(),
        );
        self.oracle.law_error_probability_monotonic(
            self.max_error_probability,
            self.safe_variance,
            self.spec_variance(br_noise1, ks_noise1, ms_noise1) as u128,
            self.spec_variance(br_noise2, ks_noise2, ms_noise2) as u128,
        );
    }
}

/// One minus the squared success probability of one bootstrap, in fixed
/// point: the failure probability of two independent bootstraps.
pub open spec fn success_squared_complement(p_error: u64) -> u64 {
    if p_error > PROB_ONE {
        PROB_ONE
    } else {
        (PROB_ONE - ((PROB_ONE - p_error) * (PROB_ONE - p_error)) / (PROB_ONE as int)) as u64
    }
}

/// The squared success probability stays a probability and never exceeds the
/// success probability itself.
proof fn lemma_success_square_bounds(q: int)
    requires
        0 <= q <= PROB_ONE,
    ensures
        0 <= (q * q) / (PROB_ONE as int) <= q,
{
    vstd::arithmetic::mul::lemma_mul_inequality(q, PROB_ONE as int, q);
    assert(q * q <= PROB_ONE * q);
    vstd::arithmetic::div_mod::lemma_div_is_ordered(q * q, (PROB_ONE as int) * q, PROB_ONE as int);
    vstd::arithmetic::div_mod::lemma_div_multiples_vanish(q, PROB_ONE as int);
    vstd::arithmetic::div_mod::lemma_div_pos_is_pos(q * q, PROB_ONE as int);
    assert(q * q >= 0) by (nonlinear_arith)
        requires
            q >= 0,
    ;
}

} // verus!
