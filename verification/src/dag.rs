//! The analyzed-circuit oracle.
//!
//! The circuit entry point treats the result of the DAG analysis as an
//! oracle: a count of programmable bootstraps, a feasibility predicate over
//! the four noise sources, a total cost linear in the cost of one bootstrap,
//! and local/global failure probabilities.  As with [`crate::oracle::Oracle`],
//! the monotonicity assumptions the search cuts rely on are proof obligations
//! of the trait.

use vstd::prelude::*;

use crate::oracle::PROB_ONE;

verus! {

/// An analyzed circuit, closed over the noise bounds it was analyzed with.
pub trait AnalyzedDag: Sized {
    /// Number of programmable bootstraps in the circuit.
    spec fn spec_nb_luts(&self) -> u64;

    fn nb_luts(&self) -> (r: u64)
        ensures
            r == self.spec_nb_luts(),
    ;

    /// Every table lookup reads a circuit input directly (one layer).
    spec fn spec_has_only_luts_with_inputs(&self) -> bool;

    fn has_only_luts_with_inputs(&self) -> (r: bool)
        ensures
            r == self.spec_has_only_luts_with_inputs(),
    ;

    /// The variance bound the circuit was analyzed against.
    spec fn spec_safe_variance(&self) -> u64;

    fn safe_variance(&self) -> (r: u64)
        ensures
            r == self.spec_safe_variance(),
    ;

    /// The failure-probability bound the circuit was analyzed against.
    spec fn spec_max_error_probability(&self) -> u64;

    /// Total circuit cost, given the input LWE dimension and the cost of one
    /// bootstrap (key-switch included).
    spec fn spec_complexity_cost(&self, input_lwe_dimension: u64, one_lut_cost: u128) -> u128;

    fn complexity_cost(&self, input_lwe_dimension: u64, one_lut_cost: u128) -> (r: u128)
        requires
            one_lut_cost <= 0x2_0000_0000_0000_0000,
        ensures
            r == self.spec_complexity_cost(input_lwe_dimension, one_lut_cost),
    ;

    /// Do these four noise sources keep every circuit constraint within its
    /// bound?
    spec fn spec_feasible(
        &self,
        input_noise: u64,
        br_noise: u64,
        ks_noise: u64,
        modulus_switching_noise: u64,
    ) -> bool;

    fn feasible(
        &self,
        input_noise: u64,
        br_noise: u64,
        ks_noise: u64,
        modulus_switching_noise: u64,
    ) -> (r: bool)
        ensures
            r == self.spec_feasible(input_noise, br_noise, ks_noise, modulus_switching_noise),
    ;

    /// Local failure probability and worst output variance of the circuit
    /// under these four noise sources.
    spec fn spec_peek_p_error(
        &self,
        input_noise: u64,
        br_noise: u64,
        ks_noise: u64,
        modulus_switching_noise: u64,
    ) -> (u64, u128);

    fn peek_p_error(
        &self,
        input_noise: u64,
        br_noise: u64,
        ks_noise: u64,
        modulus_switching_noise: u64,
    ) -> (r: (u64, u128))
        ensures
            r == self.spec_peek_p_error(input_noise, br_noise, ks_noise, modulus_switching_noise),
    ;

    /// Failure probability of the whole circuit, aggregated over all its
    /// noise-dominating bootstraps.
    spec fn spec_global_p_error(
        &self,
        input_noise: u64,
        br_noise: u64,
        ks_noise: u64,
        modulus_switching_noise: u64,
    ) -> u64;

    fn global_p_error(
        &self,
        input_noise: u64,
        br_noise: u64,
        ks_noise: u64,
        modulus_switching_noise: u64,
    ) -> (r: u64)
        ensures
            r == self.spec_global_p_error(
                input_noise,
                br_noise,
                ks_noise,
                modulus_switching_noise,
            ),
    ;

    /// Feasibility only improves when every noise source shrinks.
    proof fn law_feasible_antitone(
        &self,
        input_noise1: u64,
        br_noise1: u64,
        ks_noise1: u64,
        ms_noise1: u64,
        input_noise2: u64,
        br_noise2: u64,
        ks_noise2: u64,
        ms_noise2: u64,
    )
        requires
            input_noise1 <= input_noise2,
            br_noise1 <= br_noise2,
            ks_noise1 <= ks_noise2,
            ms_noise1 <= ms_noise2,
            self.spec_feasible(input_noise2, br_noise2, ks_noise2, ms_noise2),
        ensures
            self.spec_feasible(input_noise1, br_noise1, ks_noise1, ms_noise1),
    ;

    /// With at least one bootstrap, a feasible point keeps the input noise
    /// plus the modulus-switching noise within the bound.
    proof fn law_feasible_input_bound(
        &self,
        input_noise: u64,
        br_noise: u64,
        ks_noise: u64,
        ms_noise: u64,
    )
        requires
            self.spec_nb_luts() > 0,
            self.spec_feasible(input_noise, br_noise, ks_noise, ms_noise),
        ensures
            input_noise + ms_noise <= self.spec_safe_variance(),
    ;

    /// With a bootstrap fed by another bootstrap, a feasible point keeps the
    /// bootstrap, key-switch and modulus-switching noises within the bound.
    proof fn law_feasible_lut_bound(
        &self,
        input_noise: u64,
        br_noise: u64,
        ks_noise: u64,
        ms_noise: u64,
    )
        requires
            self.spec_nb_luts() > 0,
            !self.spec_has_only_luts_with_inputs(),
            self.spec_feasible(input_noise, br_noise, ks_noise, ms_noise),
        ensures
            br_noise + ks_noise + ms_noise <= self.spec_safe_variance(),
        ;

    /// With every bootstrap on an input, a feasible point keeps the input,
    /// key-switch and modulus-switching noises within the bound.
    proof fn law_feasible_input_lut_bound(
        &self,
        input_noise: u64,
        br_noise: u64,
        ks_noise: u64,
        ms_noise: u64,
    )
        requires
            self.spec_nb_luts() > 0,
            self.spec_has_only_luts_with_inputs(),
            self.spec_feasible(input_noise, br_noise, ks_noise, ms_noise),
        ensures
            input_noise + ks_noise + ms_noise <= self.spec_safe_variance(),
    ;

    /// The total cost is linear in the cost of one bootstrap, with bounded
    /// coefficients.
    proof fn law_complexity_linear(&self, input_lwe_dimension: u64, one_lut_cost: u128)
        requires
            one_lut_cost <= 0x2_0000_0000_0000_0000,
        ensures
            self.spec_complexity_cost(input_lwe_dimension, one_lut_cost) as int
                == self.spec_complexity_cost(input_lwe_dimension, 0) as int
                + self.spec_nb_luts() * one_lut_cost,
            self.spec_complexity_cost(input_lwe_dimension, 0)
                <= 0x10_0000_0000_0000_0000_0000_0000,
            self.spec_nb_luts() <= 0x1_0000_0000,
    ;

    /// The local probability never exceeds the global one, both are
    /// probabilities, and a feasible point meets the configured bound.
    proof fn law_p_error_bounds(
        &self,
        input_noise: u64,
        br_noise: u64,
        ks_noise: u64,
        ms_noise: u64,
    )
        ensures
            self.spec_peek_p_error(input_noise, br_noise, ks_noise, ms_noise).0
                <= self.spec_global_p_error(input_noise, br_noise, ks_noise, ms_noise),
            self.spec_global_p_error(input_noise, br_noise, ks_noise, ms_noise) <= PROB_ONE,
            self.spec_feasible(input_noise, br_noise, ks_noise, ms_noise)
                ==> self.spec_peek_p_error(input_noise, br_noise, ks_noise, ms_noise).0
                <= self.spec_max_error_probability(),
    ;

    /// A circuit without bootstraps has no bootstrap or key-switch noise
    /// source: feasibility and failure probability ignore those arguments.
    proof fn law_no_luts_independent(
        &self,
        input_noise: u64,
        br_noise: u64,
        ks_noise: u64,
        ms_noise: u64,
    )
        requires
            self.spec_nb_luts() == 0,
        ensures
            self.spec_feasible(input_noise, br_noise, ks_noise, ms_noise) == self.spec_feasible(
                input_noise,
                0,
                0,
                ms_noise,
            ),
            self.spec_peek_p_error(input_noise, br_noise, ks_noise, ms_noise)
                == self.spec_peek_p_error(input_noise, 0, 0, ms_noise),
    ;

    /// The local failure probability only shrinks when every noise source
    /// shrinks.
    proof fn law_p_error_monotonic(
        &self,
        input_noise1: u64,
        br_noise1: u64,
        ks_noise1: u64,
        ms_noise1: u64,
        input_noise2: u64,
        br_noise2: u64,
        ks_noise2: u64,
        ms_noise2: u64,
    )
        requires
            input_noise1 <= input_noise2,
            br_noise1 <= br_noise2,
            ks_noise1 <= ks_noise2,
            ms_noise1 <= ms_noise2,
        ensures
            self.spec_peek_p_error(input_noise1, br_noise1, ks_noise1, ms_noise1).0
                <= self.spec_peek_p_error(input_noise2, br_noise2, ks_noise2, ms_noise2).0,
    ;
}

} // verus!
