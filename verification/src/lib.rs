//! Parameter selection for an LWE/GLWE-based homomorphic encryption scheme.
//!
//! Given a computation described either as a single atomic pattern
//! (dot-product, key-switch, programmable bootstrap) or as a whole circuit,
//! the optimizer enumerates lattice dimensions, polynomial sizes and gadget
//! decompositions, prunes the search with Pareto and monotonicity cuts, and
//! returns the cheapest parameter set whose decryption-failure probability
//! stays below the caller's bound.
//!
//! All noise variances, costs and probabilities are fixed-point integers
//! supplied by oracle traits ([`oracle::Oracle`], [`dag::AnalyzedDag`]); the
//! monotonicity assumptions that justify the cuts are proof obligations of
//! those traits, so every cut in the search is verified sound against them.

pub mod atomic_pattern;
pub mod dag;
pub mod dag_optimize;
pub mod equivalence;
pub mod model;
pub mod oracle;
pub mod parameters;
pub mod pareto;
pub mod v0_dag;

pub use parameters::{
    BrDecompositionParameters, Config, GlweParameters, KsDecompositionParameters,
    KeyswitchParameters, PbsParameters, SearchSpace,
};
