use vstd::prelude::*;

use crate::SCALE;

verus! {

/// Error carrying the rejected value: raised when a value outside the unit
/// interval is offered as a probability.
#[derive(Clone, Copy, Debug, PartialEq, Eq, Structural)]
pub struct ProbabilityError(i64);

impl ProbabilityError {
    /// The value that was rejected (in fixed point).
    pub closed spec fn spec_value(&self) -> i64 {
        self.0
    }

    pub fn value(&self) -> (v: i64)
        ensures
            v == self.spec_value(),
    {
        self.0
    }
}

/// A probability in [0, 1], held in fixed point as a count of `SCALE`-ths.
/// Validated at construction and on every in-place mutation; a rejected
/// mutation leaves the prior valid value intact.
#[derive(Clone, Copy, Debug, PartialEq, Eq, Structural)]
pub struct Probability(i64);

impl Probability {
    /// The wrapped fixed-point probability.
    pub closed spec fn spec_value(&self) -> i64 {
        self.0
    }

    /// Every reachable value lies in the unit interval.
    pub open spec fn well_formed(&self) -> bool {
        0 <= self.spec_value() <= SCALE
    }

    pub fn new(value: i64) -> (r: Result<Probability, ProbabilityError>)
        ensures
            (0 <= value <= SCALE) <==> r is Ok,
            r is Ok ==> r->Ok_0.spec_value() == value && r->Ok_0.well_formed(),
            r is Err ==> r->Err_0.spec_value() == value,
    {
        if 0 <= value && value <= SCALE {
            Ok(Probability(value))
        } else {
            Err(ProbabilityError(value))
        }
    }

    pub fn value(&self) -> (v: i64)
        ensures
            v == self.spec_value(),
    {
        self.0
    }

    /// Replace the wrapped probability; an out-of-range value is rejected
    /// and the old value kept.
    pub fn probability(&mut self, value: i64) -> (r: Result<i64, ProbabilityError>)
        ensures
            (0 <= value <= SCALE) <==> r is Ok,
            r is Ok ==> final(self).spec_value() == value && r->Ok_0 == value,
            r is Err ==> *final(self) == *old(self) && r->Err_0.spec_value() == value,
            old(self).well_formed() ==> final(self).well_formed(),
    {
        if 0 <= value && value <= SCALE {
            self.0 = value;
            Ok(value)
        } else {
            Err(ProbabilityError(value))
        }
    }
}

} // verus!
