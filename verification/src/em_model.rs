use vstd::prelude::*;

use crate::arrays::LikelihoodGrid;
use crate::arrays::SampleArray;
use crate::normal_params::NormalParams;
use crate::pos_int::PositiveInteger;

verus! {

/// The assembled batch expectation-maximization model: one normal
/// component, the abnormal components, the sample data, preallocated
/// likelihood storage, and the epoch budget.
pub struct EmModel {
    pub normal: NormalParams,
    pub abnormals: Vec<NormalParams>,
    pub samples: SampleArray,
    pub likelihoods: LikelihoodGrid,
    pub epochs: PositiveInteger,
}

/// Convergence state for early stopping: the likelihoods of the previous
/// epoch, kept to compare against the current ones.
pub struct LikelihoodChecker {
    pub prev_likelihood: LikelihoodGrid,
}

/// An expectation-maximization model paired with a convergence checker so
/// fitting can stop before the epoch budget is spent.
pub struct EarlyStopEmModel {
    pub em_model: EmModel,
    pub converge_checker: LikelihoodChecker,
}

} // verus!
