use vstd::prelude::*;

use crate::X_MAX;

verus! {

/// Rejection of Gaussian parameters: the mean lay outside the representable
/// band (the role non-finite values play elsewhere) or the standard
/// deviation was not strictly positive.
#[derive(Clone, Copy, Debug, PartialEq, Eq, Structural)]
pub enum NormalError {
    BadMean(i64),
    BadStdDev(i64),
}

/// A Gaussian distribution's location and spread, in fixed point. The
/// standard deviation is strictly positive in every reachable value, and
/// both parameters stay within the representable band.
#[derive(Clone, Copy, Debug, PartialEq, Eq, Structural)]
pub struct Normal {
    mean: i64,
    stddev: i64,
}

impl Normal {
    pub closed spec fn spec_mean(&self) -> i64 {
        self.mean
    }

    pub closed spec fn spec_stddev(&self) -> i64 {
        self.stddev
    }

    /// Which parameter pairs are accepted.
    pub open spec fn spec_params_ok(mean: i64, stddev: i64) -> bool {
        &&& -X_MAX <= mean <= X_MAX
        &&& 0 < stddev <= X_MAX
    }

    pub open spec fn well_formed(&self) -> bool {
        Normal::spec_params_ok(self.spec_mean(), self.spec_stddev())
    }

    /// Validated construction: out-of-band parameters are rejected, never
    /// clamped. A rejected mean is reported before a rejected deviation.
    pub fn new(mean: i64, stddev: i64) -> (r: Result<Normal, NormalError>)
        ensures
            Normal::spec_params_ok(mean, stddev) <==> r is Ok,
            r is Ok ==> r->Ok_0.spec_mean() == mean && r->Ok_0.spec_stddev() == stddev
                && r->Ok_0.well_formed(),
            !(-X_MAX <= mean <= X_MAX) ==> r == Err::<Normal, NormalError>(NormalError::BadMean(mean)),
            (-X_MAX <= mean <= X_MAX) && !(0 < stddev <= X_MAX) ==> r == Err::<Normal, NormalError>(
                NormalError::BadStdDev(stddev),
            ),
    {
        if !(-X_MAX <= mean && mean <= X_MAX) {
            Err(NormalError::BadMean(mean))
        } else if !(0 < stddev && stddev <= X_MAX) {
            Err(NormalError::BadStdDev(stddev))
        } else {
            Ok(Normal { mean, stddev })
        }
    }

    pub fn mean(&self) -> (m: i64)
        ensures
            m == self.spec_mean(),
    {
        self.mean
    }

    pub fn stddev(&self) -> (s: i64)
        ensures
            s == self.spec_stddev(),
    {
        self.stddev
    }

    /// Replace both parameters; rejection leaves the prior values intact.
    pub fn update_params(&mut self, mean: i64, stddev: i64) -> (r: Result<(), NormalError>)
        ensures
            Normal::spec_params_ok(mean, stddev) <==> r is Ok,
            r is Ok ==> final(self).spec_mean() == mean && final(self).spec_stddev() == stddev,
            r is Err ==> *final(self) == *old(self),
            !(-X_MAX <= mean <= X_MAX) ==> r == Err::<(), NormalError>(NormalError::BadMean(mean)),
            (-X_MAX <= mean <= X_MAX) && !(0 < stddev <= X_MAX) ==> r == Err::<(), NormalError>(
                NormalError::BadStdDev(stddev),
            ),
            old(self).well_formed() ==> final(self).well_formed(),
    {
        if !(-X_MAX <= mean && mean <= X_MAX) {
            Err(NormalError::BadMean(mean))
        } else if !(0 < stddev && stddev <= X_MAX) {
            Err(NormalError::BadStdDev(stddev))
        } else {
            self.mean = mean;
            self.stddev = stddev;
            Ok(())
        }
    }
}

} // verus!
