use vstd::prelude::*;

verus! {

/// Error carrying the rejected value: raised whenever a zero is offered where
/// a strictly positive count is required.
#[derive(Copy, Clone, Debug, PartialEq, Eq)]
pub struct PositiveError(u32);

impl PositiveError {
    /// The value that was rejected.
    pub closed spec fn spec_value(&self) -> u32 {
        self.0
    }

    pub fn value(&self) -> (v: u32)
        ensures
            v == self.spec_value(),
    {
        self.0
    }
}

/// A strictly positive `u32`, validated at construction and on every
/// in-place mutation; a rejected mutation leaves the prior value intact.
#[derive(Copy, Clone, Debug, PartialEq, Eq)]
pub struct PositiveInteger(u32);

impl PositiveInteger {
    /// The wrapped count.
    pub closed spec fn spec_value(&self) -> u32 {
        self.0
    }

    /// Every reachable value of this type is strictly positive.
    pub open spec fn well_formed(&self) -> bool {
        self.spec_value() > 0
    }

    pub fn new(value: u32) -> (r: Result<PositiveInteger, PositiveError>)
        ensures
            value != 0 <==> r is Ok,
            r is Ok ==> r->Ok_0.spec_value() == value && r->Ok_0.well_formed(),
            r is Err ==> r->Err_0.spec_value() == value,
    {
        if is_positive(value) {
            Ok(PositiveInteger(value))
        } else {
            Err(PositiveError(value))
        }
    }

    pub fn value(&self) -> (v: u32)
        ensures
            v == self.spec_value(),
    {
        self.0
    }

    /// Replace the wrapped count; a zero is rejected and the old count kept.
    pub fn set(&mut self, value: u32) -> (r: Result<u32, PositiveError>)
        ensures
            value != 0 <==> r is Ok,
            r is Ok ==> final(self).spec_value() == value && r->Ok_0 == value,
            r is Err ==> *final(self) == *old(self) && r->Err_0.spec_value() == value,
            old(self).well_formed() ==> final(self).well_formed(),
    {
        if is_positive(value) {
            self.0 = value;
            Ok(value)
        } else {
            Err(PositiveError(value))
        }
    }
}

impl Default for PositiveInteger {
    /// The default count is one, the smallest valid value.
    fn default() -> (r: PositiveInteger)
        ensures
            r.spec_value() == 1,
            r.well_formed(),
    {
        PositiveInteger(1)
    }
}

/// An unsigned value is positive exactly when it is not zero.
pub fn is_positive(value: u32) -> (r: bool)
    ensures
        r == (value != 0),
{
    value != 0
}

/// A second strictly positive `u32` with the same invariant as
/// `PositiveInteger`: construction and mutation check the offered value
/// directly against zero, and a rejected mutation keeps the prior value.
#[derive(Copy, Clone, Debug, PartialEq, Eq)]
pub struct PositiveInteger2(u32);

impl PositiveInteger2 {
    /// The wrapped count.
    pub closed spec fn spec_value(&self) -> u32 {
        self.0
    }

    pub open spec fn well_formed(&self) -> bool {
        self.spec_value() > 0
    }

    pub fn new(value: u32) -> (r: Result<PositiveInteger2, PositiveError>)
        ensures
            value != 0 <==> r is Ok,
            r is Ok ==> r->Ok_0.spec_value() == value && r->Ok_0.well_formed(),
            r is Err ==> r->Err_0.spec_value() == value,
    {
        if value != 0 {
            Ok(PositiveInteger2(value))
        } else {
            Err(PositiveError(value))
        }
    }

    pub fn value(&self) -> (v: u32)
        ensures
            v == self.spec_value(),
    {
        self.0
    }

    /// Replace the wrapped count; a zero is rejected and the old count kept.
    pub fn set(&mut self, value: u32) -> (r: Result<u32, PositiveError>)
        ensures
            value != 0 <==> r is Ok,
            r is Ok ==> final(self).spec_value() == value && r->Ok_0 == value,
            r is Err ==> *final(self) == *old(self) && r->Err_0.spec_value() == value,
            old(self).well_formed() ==> final(self).well_formed(),
    {
        if value != 0 {
            self.0 = value;
            Ok(value)
        } else {
            Err(PositiveError(value))
        }
    }
}

} // verus!
