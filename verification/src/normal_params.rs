use vstd::prelude::*;

use crate::normal::Normal;
use crate::normal::NormalError;
use crate::probability::Probability;
use crate::probability::ProbabilityError;
use crate::LIKE_MAX;
use crate::SCALE;
use vstd::arithmetic::div_mod::lemma_div_is_ordered;
use vstd::arithmetic::div_mod::lemma_div_multiples_vanish;

verus! {

/// Rejection of mixture-component parameters: either the Gaussian
/// parameters or the mixing probability were out of range.
#[derive(Clone, Copy, Debug, PartialEq, Eq, Structural)]
pub enum NormalParamsError {
    ParameterError(NormalError),
    ProbabilityError(ProbabilityError),
}

/// One mixture component: a Gaussian and its mixing probability. Both
/// fields only ever hold validated values.
#[derive(Clone, Copy, Debug, PartialEq, Eq, Structural)]
pub struct NormalParams {
    pub dist: Normal,
    pub prob: Probability,
}

impl NormalParams {
    pub open spec fn well_formed(&self) -> bool {
        self.dist.well_formed() && self.prob.well_formed()
    }

    /// Pair a Gaussian with a mixing probability (in fixed point); an
    /// out-of-range probability is rejected.
    pub fn new(dist: Normal, prob_value: i64) -> (r: Result<NormalParams, NormalParamsError>)
        ensures
            (0 <= prob_value <= SCALE) <==> r is Ok,
            r is Ok ==> r->Ok_0.dist == dist && r->Ok_0.prob.spec_value() == prob_value,
            r is Err ==> r->Err_0 matches NormalParamsError::ProbabilityError(_),
            dist.well_formed() && r is Ok ==> r->Ok_0.well_formed(),
    {
        match Probability::new(prob_value) {
            Ok(prob) => Ok(NormalParams { dist, prob }),
            Err(e) => Err(NormalParamsError::ProbabilityError(e)),
        }
    }

    /// Construct from a 3-tuple of mean, standard deviation, and mixing
    /// probability, all in fixed point.
    pub fn from_tuple(tuple: (i64, i64, i64)) -> (r: Result<NormalParams, NormalParamsError>)
        ensures
            (Normal::spec_params_ok(tuple.0, tuple.1) && 0 <= tuple.2 <= SCALE) <==> r is Ok,
            r is Ok ==> r->Ok_0.dist.spec_mean() == tuple.0 && r->Ok_0.dist.spec_stddev() == tuple.1
                && r->Ok_0.prob.spec_value() == tuple.2 && r->Ok_0.well_formed(),
            !Normal::spec_params_ok(tuple.0, tuple.1) ==> r matches Err(
                NormalParamsError::ParameterError(_),
            ),
            Normal::spec_params_ok(tuple.0, tuple.1) && !(0 <= tuple.2 <= SCALE) ==> r matches Err(
                NormalParamsError::ProbabilityError(_),
            ),
    {
        let normal = match Normal::new(tuple.0, tuple.1) {
            Ok(n) => n,
            Err(e) => {
                return Err(NormalParamsError::ParameterError(e));
            },
        };
        match Probability::new(tuple.2) {
            Ok(prob) => Ok(NormalParams { dist: normal, prob }),
            Err(e) => Err(NormalParamsError::ProbabilityError(e)),
        }
    }

    /// The weighted likelihood of a point whose Gaussian density under
    /// `dist` is `phi` (in fixed point): the mixing probability times the
    /// density. The density itself comes from the caller, which is where
    /// the floating-point evaluation of the Gaussian lives.
    pub fn likelihood(&self, phi: u64) -> (r: u64)
        requires
            self.well_formed(),
            phi <= LIKE_MAX,
        ensures
            r == self.prob.spec_value() * phi / (SCALE as int),
            r <= phi,
    {
        let p: i64 = self.prob.value();
        proof {
            assert(p * phi <= (SCALE as int) * (LIKE_MAX as int)) by (nonlinear_arith)
                requires 0 <= p <= SCALE, 0 <= phi <= LIKE_MAX;
            assert(p * phi <= SCALE * phi) by (nonlinear_arith)
                requires 0 <= p <= SCALE, 0 <= phi;
            lemma_div_is_ordered(p * phi, SCALE * phi, SCALE as int);
            lemma_div_multiples_vanish(phi as int, SCALE as int);
            assert(SCALE * phi == (SCALE as int) * (phi as int)) by (nonlinear_arith);
            assert(p * phi >= 0) by (nonlinear_arith)
                requires p >= 0, phi >= 0;
            lemma_div_is_ordered(0, p * phi, SCALE as int);
        }
        let r: u128 = ((p as u128) * (phi as u128)) / (SCALE as u128);
        r as u64
    }

    /// Write the weighted likelihood of each point into the output buffer,
    /// given the Gaussian density of each (in fixed point). As with a zip,
    /// the shorter of the two lengths decides how much is written: the
    /// output keeps its length, and entries past the densities are left
    /// untouched.
    pub fn probs_inplace(&self, phis: &Vec<u64>, out: &mut Vec<u64>)
        requires
            self.well_formed(),
            forall|i: int| 0 <= i < phis@.len() ==> (#[trigger] phis@[i]) <= LIKE_MAX,
        ensures
            final(out)@.len() == old(out)@.len(),
            forall|i: int|
                0 <= i < phis@.len() && i < old(out)@.len() ==> final(out)@[i]
                    == self.prob.spec_value() * phis@[i] / (SCALE as int),
            forall|i: int|
                phis@.len() <= i < old(out)@.len() ==> final(out)@[i] == old(out)@[i],
    {
        let n: usize = out.len();
        let m: usize = if phis.len() < n {
            phis.len()
        } else {
            n
        };
        let mut result: Vec<u64> = Vec::new();
        let mut i: usize = 0;
        while i < m
            invariant
                i <= m,
                m <= phis@.len(),
                m <= n,
                n == out@.len(),
                out@ == old(out)@,
                self.well_formed(),
                forall|j: int| 0 <= j < phis@.len() ==> (#[trigger] phis@[j]) <= LIKE_MAX,
                result@.len() == i,
                forall|j: int|
                    0 <= j < i ==> result@[j] == self.prob.spec_value() * phis@[j] / (SCALE as int),
            decreases m - i,
        {
            let v: u64 = self.likelihood(phis[i]);
            result.push(v);
            i += 1;
        }
        let mut k: usize = m;
        while k < n
            invariant
                m <= k <= n,
                n == out@.len(),
                out@ == old(out)@,
                result@.len() == k,
                m <= phis@.len(),
                forall|j: int|
                    0 <= j < m ==> result@[j] == self.prob.spec_value() * phis@[j] / (SCALE as int),
                forall|j: int| m <= j < k ==> result@[j] == out@[j],
            decreases n - k,
        {
            let v: u64 = out[k];
            result.push(v);
            k += 1;
        }
        *out = result;
    }

    /// Replace the Gaussian parameters and then the mixing probability, in
    /// that order: if the Gaussian is rejected nothing changes, while a
    /// valid Gaussian followed by an invalid probability leaves the new
    /// Gaussian in place and the old probability intact.
    pub fn update_params(&mut self, mean: i64, stddev: i64, prob: i64) -> (r: Result<
        (i64, i64, i64),
        NormalParamsError,
    >)
        ensures
            (Normal::spec_params_ok(mean, stddev) && 0 <= prob <= SCALE) <==> r is Ok,
            r is Ok ==> r->Ok_0 == (mean, stddev, prob) && final(self).dist.spec_mean() == mean
                && final(self).dist.spec_stddev() == stddev && final(self).prob.spec_value() == prob,
            !Normal::spec_params_ok(mean, stddev) ==> *final(self) == *old(self) && r matches Err(
                NormalParamsError::ParameterError(_),
            ),
            Normal::spec_params_ok(mean, stddev) && !(0 <= prob <= SCALE) ==> final(self).dist.spec_mean()
                == mean && final(self).dist.spec_stddev() == stddev && final(self).prob == old(
                self).prob && r matches Err(NormalParamsError::ProbabilityError(_)),
            old(self).well_formed() ==> final(self).well_formed(),
    {
        match self.dist.update_params(mean, stddev) {
            Ok(_) => {},
            Err(e) => {
                return Err(NormalParamsError::ParameterError(e));
            },
        }
        match self.prob(prob) {
            Ok(_) => Ok((mean, stddev, prob)),
            Err(e) => Err(e),
        }
    }

    /// Replace only the mixing probability; rejection keeps the old value.
    pub fn prob(&mut self, prob: i64) -> (r: Result<i64, NormalParamsError>)
        ensures
            (0 <= prob <= SCALE) <==> r is Ok,
            r is Ok ==> r->Ok_0 == prob && final(self).prob.spec_value() == prob && final(
                self).dist == old(self).dist,
            r is Err ==> *final(self) == *old(self) && r matches Err(
                NormalParamsError::ProbabilityError(_),
            ),
            old(self).well_formed() ==> final(self).well_formed(),
    {
        match self.prob.probability(prob) {
            Ok(v) => Ok(v),
            Err(e) => Err(NormalParamsError::ProbabilityError(e)),
        }
    }
}

} // verus!
