//! Online statistical change-point detection, centred on a Bayesian online
//! change-point detection engine: a posterior over run lengths under
//! Normal-Inverse-Gamma priors, updated one observation at a time, with an
//! optional pruning policy that truncates negligible trailing run lengths.
//!
//! Every real-valued quantity is carried in fixed point, as an integer
//! count of `SCALE`-ths, so the probability bookkeeping — growth and
//! change-point mass mixing, renormalization, pruning — is exact integer
//! arithmetic with proved contracts: weights sum to exactly `SCALE` after
//! every successful update, the hypothesis count grows by exactly one per
//! observation while pruning is off, and a rejected update leaves the
//! engine untouched. The one real-valued quantity with no closed fixed
//! point form, the Student-t predictive density of an observation under a
//! hypothesis, is taken as an input: callers evaluate it in log-space
//! floating point at the boundary and hand the engine one fixed-point
//! likelihood per live hypothesis.
//!
//! Around the engine stand the simpler siblings that share its stream
//! shape: the staged builder for the batch expectation-maximization
//! mixture fitter, the validated scalar types it draws on, and the
//! `ndarray`-backed storage they fill.

pub mod arrays;
pub mod em_model;
pub mod em_model_builder;
pub mod engine;
pub mod normal;
pub mod normal_inverse_gamma;
pub mod normal_params;
pub mod pos_int;
pub mod probability;

use vstd::prelude::*;

verus! {

/// Fixed-point scale: every real-valued quantity in this crate is carried as
/// an integer count of `SCALE`-ths, so the real value 1 is `SCALE` units.
pub const SCALE: i64 = 1_000_000_000;

/// Half of `SCALE`, the fixed-point image of one half.
pub const HALF_SCALE: i64 = 500_000_000;

/// Largest magnitude accepted for an observation or a location parameter:
/// the fixed-point image of 1000. Observations beyond it are out of range,
/// playing the role that non-finite floating-point inputs play elsewhere.
pub const X_MAX: i64 = 1_000_000_000_000;

/// Cap on the positive hyperparameters (kappa, alpha, beta). They only ever
/// grow during conjugate updates; the cap keeps every intermediate product
/// inside 128-bit arithmetic, and is unreachable on any feasible stream.
pub const PARAM_MAX: i64 = 4_000_000_000_000_000_000;

/// Largest accepted predictive likelihood, the fixed-point image of one
/// million; densities are bounded by this before they enter the engine.
pub const LIKE_MAX: u64 = 1_000_000_000_000_000;

} // verus!
