//! Plain parameter records shared by the whole optimizer.

use vstd::prelude::*;

verus! {

/// A gadget decomposition for the key-switch: `level` ladder rungs of
/// `2^log2_base` each.
#[derive(Clone, Copy, PartialEq, Eq, Structural, Debug)]
pub struct KsDecompositionParameters {
    pub level: u64,
    pub log2_base: u64,
}

/// A gadget decomposition for the blind rotation (bootstrap).
#[derive(Clone, Copy, PartialEq, Eq, Structural, Debug)]
pub struct BrDecompositionParameters {
    pub level: u64,
    pub log2_base: u64,
}

/// GLWE parameters: ring size `2^log2_polynomial_size` and number of mask
/// polynomials `glwe_dimension`.
#[derive(Clone, Copy, PartialEq, Eq, Structural, Debug)]
pub struct GlweParameters {
    pub log2_polynomial_size: u64,
    pub glwe_dimension: u64,
}

impl GlweParameters {
    /// Ring size as a plain integer.
    pub fn polynomial_size(self) -> (r: u64)
        requires
            self.log2_polynomial_size < 64,
        ensures
            r == (1u64 << self.log2_polynomial_size),
    {
        1u64 << self.log2_polynomial_size
    }
}

/// Everything a programmable bootstrap depends on.
#[derive(Clone, Copy, PartialEq, Eq, Structural, Debug)]
pub struct PbsParameters {
    pub internal_lwe_dimension: u64,
    pub br_decomposition_parameter: BrDecompositionParameters,
    pub output_glwe_params: GlweParameters,
}

/// Everything a key-switch depends on.
#[derive(Clone, Copy, PartialEq, Eq, Structural, Debug)]
pub struct KeyswitchParameters {
    pub input_lwe_dimension: u64,
    pub output_lwe_dimension: u64,
    pub ks_decomposition_parameter: KsDecompositionParameters,
}

/// Caller-chosen constants of one optimization run.
///
/// `maximum_acceptable_error_probability` is a fixed-point probability (see
/// [`crate::oracle::PROB_ONE`]).  The two decomposition pools are externally
/// supplied and must be sorted by increasing analytical complexity.
pub struct Config {
    pub security_level: u64,
    pub maximum_acceptable_error_probability: u64,
    pub ciphertext_modulus_log: u32,
    pub ks_decompositions: Vec<KsDecompositionParameters>,
    pub br_decompositions: Vec<BrDecompositionParameters>,
}

/// The three ordered axes of the outer search.
pub struct SearchSpace {
    pub glwe_dimensions: Vec<u64>,
    pub glwe_log_polynomial_sizes: Vec<u64>,
    pub internal_lwe_dimensions: Vec<u64>,
}

} // verus!
