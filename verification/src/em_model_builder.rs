use vstd::prelude::*;

use crate::arrays::arr1_contents;
use crate::arrays::arr2_contents;
use crate::arrays::arr2_shape;
use crate::arrays::LikelihoodGrid;
use crate::arrays::SampleArray;
use crate::em_model::EarlyStopEmModel;
use crate::em_model::EmModel;
use crate::em_model::LikelihoodChecker;
use crate::normal::Normal;
use crate::normal_params::NormalParams;
use crate::normal_params::NormalParamsError;
use crate::pos_int::PositiveError;
use crate::pos_int::PositiveInteger;
use crate::SCALE;

verus! {

/// The build state of one staged field.
pub enum FieldStatus<T> {
    Complete(T),
    Incomplete(T),
    NotStarted,
}

/// Why a staged build step was refused.
#[derive(Debug)]
pub enum BuildError<T: Send + Sync> {
    /// The epoch count offered was zero.
    BadEpoch(PositiveError),
    /// A Gaussian parameter or mixing probability was out of range.
    BadNormalValues(NormalParamsError),
    /// A later stage was requested before a required field was completed.
    IncompleteBuildError(MissingFieldError<T>),
}

/// A build was finalized before the named field was completed. The error
/// names the field; the builder itself is not carried inside it — the
/// staging methods take the builder by shared reference, so it stays with
/// the caller and remains usable after a refusal.
#[derive(Debug)]
pub struct MissingFieldError<T> {
    pub my_struct: T,
    pub field: String,
}

/// Whether a (mean, stddev, probability) tuple describes a valid mixture
/// component.
pub open spec fn tuple_ok(t: (i64, i64, i64)) -> bool {
    Normal::spec_params_ok(t.0, t.1) && 0 <= t.2 <= SCALE
}

/// First stage of the staged expectation-maximization builder: the mixture
/// components and epoch budget may be set in any order, but the sample
/// data must be attached before the next stage can begin.
pub struct EmBuilderOne {
    pub normal: NormalParams,
    pub abnormals: Vec<NormalParams>,
    pub sample_arr: FieldStatus<SampleArray>,
    pub epochs: PositiveInteger,
}

impl EmBuilderOne {
    /// A fresh builder: a standard normal component with full mixing
    /// probability, no abnormal components, no samples, one epoch.
    pub fn new() -> (r: EmBuilderOne)
        ensures
            r.normal.dist.spec_mean() == 0,
            r.normal.dist.spec_stddev() == SCALE,
            r.normal.prob.spec_value() == SCALE,
            r.normal.well_formed(),
            r.abnormals@ =~= Seq::<NormalParams>::empty(),
            r.sample_arr is NotStarted,
            r.epochs.spec_value() == 1,
    {
        let dist = match Normal::new(0, SCALE) {
            Ok(d) => d,
            Err(_) => unreached(),
        };
        let normal = match NormalParams::new(dist, SCALE) {
            Ok(n) => n,
            Err(_) => unreached(),
        };
        let epochs = match PositiveInteger::new(1) {
            Ok(e) => e,
            Err(_) => unreached(),
        };
        EmBuilderOne { normal, abnormals: Vec::new(), sample_arr: FieldStatus::NotStarted, epochs }
    }

    /// Replace the normal component's parameters, Gaussian first: a
    /// rejected Gaussian changes nothing, while a valid Gaussian followed
    /// by an out-of-range probability installs the Gaussian and keeps the
    /// old probability.
    pub fn build_normal(&mut self, mean: i64, stddev: i64, prob: i64) -> (r: Result<
        (),
        BuildError<()>,
    >)
        ensures
            (Normal::spec_params_ok(mean, stddev) && 0 <= prob <= SCALE) <==> r is Ok,
            r is Ok ==> final(self).normal.dist.spec_mean() == mean && final(
                self).normal.dist.spec_stddev() == stddev && final(self).normal.prob.spec_value()
                == prob,
            r is Err ==> r->Err_0 matches BuildError::BadNormalValues(_),
            !Normal::spec_params_ok(mean, stddev) ==> final(self).normal == old(self).normal,
            Normal::spec_params_ok(mean, stddev) && !(0 <= prob <= SCALE) ==> final(
                self).normal.dist.spec_mean() == mean && final(self).normal.dist.spec_stddev()
                == stddev && final(self).normal.prob == old(self).normal.prob,
            final(self).abnormals@ == old(self).abnormals@,
            final(self).sample_arr == old(self).sample_arr,
            final(self).epochs == old(self).epochs,
    {
        match self.normal.update_params(mean, stddev, prob) {
            Ok(_) => Ok(()),
            Err(e) => Err(BuildError::BadNormalValues(e)),
        }
    }

    /// Replace the abnormal components with a copy of the given ones.
    pub fn build_abnormal(&mut self, abnormals: &[NormalParams])
        ensures
            final(self).abnormals@ == abnormals@,
            final(self).normal == old(self).normal,
            final(self).sample_arr == old(self).sample_arr,
            final(self).epochs == old(self).epochs,
    {
        self.abnormals.clear();
        let n: usize = abnormals.len();
        let mut i: usize = 0;
        while i < n
            invariant
                i <= n,
                n == abnormals@.len(),
                self.abnormals@ =~= abnormals@.take(i as int),
                self.normal == old(self).normal,
                self.sample_arr == old(self).sample_arr,
                self.epochs == old(self).epochs,
            decreases n - i,
        {
            self.abnormals.push(abnormals[i]);
            proof {
                assert(abnormals@.take(i as int).push(abnormals@[i as int]) =~= abnormals@.take(
                    i + 1));
            }
            i += 1;
        }
        proof {
            assert(abnormals@.take(n as int) =~= abnormals@);
        }
    }

    /// Append one abnormal component per tuple, stopping at the first
    /// invalid tuple: the valid prefix stays appended even on rejection.
    pub fn build_abnormal_from_tuples(&mut self, abnormals: &[(i64, i64, i64)]) -> (r: Result<
        (),
        BuildError<()>,
    >)
        ensures
            (forall|j: int| 0 <= j < abnormals@.len() ==> tuple_ok(#[trigger] abnormals@[j])) <==> r
                is Ok,
            r is Ok ==> final(self).abnormals@.len() == old(self).abnormals@.len()
                + abnormals@.len(),
            r is Err ==> r->Err_0 matches BuildError::BadNormalValues(_),
            r is Err ==> exists|k: int|
                0 <= k < abnormals@.len() && !tuple_ok(#[trigger] abnormals@[k]) && (forall|j: int|
                    0 <= j < k ==> tuple_ok(#[trigger] abnormals@[j])) && final(
                self).abnormals@.len() == old(self).abnormals@.len() + k,
            final(self).abnormals@.len() >= old(self).abnormals@.len(),
            forall|j: int|
                0 <= j < old(self).abnormals@.len() ==> final(self).abnormals@[j] == old(
                    self,
                ).abnormals@[j],
            forall|j: int|
                old(self).abnormals@.len() <= j < final(self).abnormals@.len() ==> {
                    let t = abnormals@[j - old(self).abnormals@.len()];
                    &&& (#[trigger] final(self).abnormals@[j]).dist.spec_mean() == t.0
                    &&& final(self).abnormals@[j].dist.spec_stddev() == t.1
                    &&& final(self).abnormals@[j].prob.spec_value() == t.2
                },
            final(self).normal == old(self).normal,
            final(self).sample_arr == old(self).sample_arr,
            final(self).epochs == old(self).epochs,
    {
        let n: usize = abnormals.len();
        let base: usize = self.abnormals.len();
        let mut i: usize = 0;
        while i < n
            invariant
                i <= n,
                n == abnormals@.len(),
                base == old(self).abnormals@.len(),
                self.abnormals@.len() == base + i,
                forall|j: int| 0 <= j < i ==> tuple_ok(#[trigger] abnormals@[j]),
                forall|j: int| 0 <= j < base ==> self.abnormals@[j] == old(self).abnormals@[j],
                forall|j: int|
                    base <= j < base + i ==> {
                        let t = abnormals@[j - base];
                        &&& (#[trigger] self.abnormals@[j]).dist.spec_mean() == t.0
                        &&& self.abnormals@[j].dist.spec_stddev() == t.1
                        &&& self.abnormals@[j].prob.spec_value() == t.2
                    },
                self.normal == old(self).normal,
                self.sample_arr == old(self).sample_arr,
                self.epochs == old(self).epochs,
            decreases n - i,
        {
            let t = abnormals[i];
            match NormalParams::from_tuple(t) {
                Ok(p) => {
                    self.abnormals.push(p);
                },
                Err(e) => {
                    proof {
                        assert(!tuple_ok(abnormals@[i as int]));
                    }
                    return Err(BuildError::BadNormalValues(e));
                },
            }
            i += 1;
        }
        Ok(())
    }

    /// Set the number of epochs to run; zero is rejected and the prior
    /// count kept.
    pub fn build_epochs(&mut self, epochs: u32) -> (r: Result<(), BuildError<()>>)
        ensures
            epochs != 0 <==> r is Ok,
            r is Ok ==> final(self).epochs.spec_value() == epochs,
            r is Err ==> *final(self) == *old(self) && r->Err_0 matches BuildError::BadEpoch(_),
            final(self).normal == old(self).normal,
            final(self).abnormals@ == old(self).abnormals@,
            final(self).sample_arr == old(self).sample_arr,
    {
        match self.epochs.set(epochs) {
            Ok(_) => Ok(()),
            Err(e) => Err(BuildError::BadEpoch(e)),
        }
    }

    /// Attach the sample data: the samples are copied into a fresh array
    /// one longer than the input, leaving one trailing zero element.
    pub fn build_samples_from_slice(&mut self, samples: &[i64])
        requires
            samples@.len() < usize::MAX,
        ensures
            final(self).sample_arr matches FieldStatus::Complete(a) && arr1_contents(a)
                =~= samples@ + seq![0i64],
            final(self).normal == old(self).normal,
            final(self).abnormals@ == old(self).abnormals@,
            final(self).epochs == old(self).epochs,
    {
        let n: usize = samples.len();
        let mut arr = SampleArray::zeros(n + 1);
        let mut i: usize = 0;
        while i < n
            invariant
                i <= n,
                n == samples@.len(),
                arr1_contents(arr).len() == n + 1,
                forall|j: int| 0 <= j < i ==> arr1_contents(arr)[j] == samples@[j],
                forall|j: int| i <= j < n + 1 ==> arr1_contents(arr)[j] == 0,
            decreases n - i,
        {
            arr.set(i, samples[i]);
            i += 1;
        }
        proof {
            assert(arr1_contents(arr) =~= samples@ + seq![0i64]);
        }
        self.sample_arr = FieldStatus::Complete(arr);
    }

    /// Finish this stage: succeeds only once the sample data is complete,
    /// handing the next-stage builder a copy of everything gathered so far.
    pub fn next_builder(&self) -> (r: Result<EmBuilderTwo, BuildError<()>>)
        ensures
            self.sample_arr is Complete <==> r is Ok,
            r is Ok ==> {
                let b = r->Ok_0;
                &&& b.normal == self.normal
                &&& b.abnormals@ == self.abnormals@
                &&& (self.sample_arr matches FieldStatus::Complete(a) && arr1_contents(b.sample_arr)
                    == arr1_contents(a))
                &&& b.likelihoods_arr is NotStarted
                &&& b.epochs == self.epochs
            },
            r is Err ==> (r->Err_0 matches BuildError::IncompleteBuildError(e) && e.field@
                == "sample_arr"@),
    {
        match &self.sample_arr {
            FieldStatus::Complete(arr) => Ok(
                EmBuilderTwo {
                    normal: self.normal,
                    abnormals: copy_params(&self.abnormals),
                    sample_arr: arr.duplicate(),
                    likelihoods_arr: FieldStatus::NotStarted,
                    epochs: self.epochs,
                },
            ),
            _ => Err(
                BuildError::IncompleteBuildError(
                    MissingFieldError { my_struct: (), field: "sample_arr".to_string() },
                ),
            ),
        }
    }
}

impl Default for EmBuilderOne {
    /// The same fresh builder that `new` yields.
    fn default() -> (r: EmBuilderOne)
        ensures
            r.normal.dist.spec_mean() == 0,
            r.normal.dist.spec_stddev() == SCALE,
            r.normal.prob.spec_value() == SCALE,
            r.normal.well_formed(),
            r.abnormals@ =~= Seq::<NormalParams>::empty(),
            r.sample_arr is NotStarted,
            r.epochs.spec_value() == 1,
    {
        EmBuilderOne::new()
    }
}

/// An element-for-element copy of a component vector.
fn copy_params(v: &Vec<NormalParams>) -> (r: Vec<NormalParams>)
    ensures
        r@ == v@,
{
    let mut r: Vec<NormalParams> = Vec::new();
    let mut i: usize = 0;
    while i < v.len()
        invariant
            i <= v@.len(),
            r@ =~= v@.take(i as int),
        decreases v@.len() - i,
    {
        r.push(v[i]);
        proof {
            assert(v@.take(i as int).push(v@[i as int]) =~= v@.take(i + 1));
        }
        i += 1;
    }
    proof {
        assert(v@.take(v@.len() as int) =~= v@);
    }
    r
}

/// Second stage: the sample data is fixed; likelihood storage must be
/// allocated before the final stage can begin.
pub struct EmBuilderTwo {
    pub normal: NormalParams,
    pub abnormals: Vec<NormalParams>,
    pub sample_arr: SampleArray,
    pub likelihoods_arr: FieldStatus<LikelihoodGrid>,
    pub epochs: PositiveInteger,
}

impl EmBuilderTwo {
    /// Allocate zeroed likelihood storage: one row per mixture component
    /// (the normal one plus each abnormal), one column per sample.
    pub fn build_likelihoods(&mut self)
        requires
            old(self).abnormals@.len() < usize::MAX,
            (old(self).abnormals@.len() + 1) * arr1_contents(old(self).sample_arr).len()
                < 0x1000_0000_0000_0000,
        ensures
            (final(self).likelihoods_arr matches FieldStatus::Complete(m) && arr2_shape(m) == (
            old(self).abnormals@.len() as int + 1,
            arr1_contents(old(self).sample_arr).len() as int,
            ) && arr2_contents(m).len() == old(self).abnormals@.len() + 1 && (forall|i: int|
                0 <= i < arr2_contents(m).len() ==> (#[trigger] arr2_contents(m)[i]).len()
                    == arr1_contents(old(self).sample_arr).len() && forall|j: int|
                    0 <= j < arr2_contents(m)[i].len() ==> arr2_contents(m)[i][j] == 0)),
            final(self).normal == old(self).normal,
            final(self).abnormals@ == old(self).abnormals@,
            final(self).sample_arr == old(self).sample_arr,
            final(self).epochs == old(self).epochs,
    {
        let sample_size: usize = self.sample_arr.len();
        let num_params: usize = self.abnormals.len() + 1;
        let likelihoods = LikelihoodGrid::zeros(num_params, sample_size);
        self.likelihoods_arr = FieldStatus::Complete(likelihoods);
    }

    /// Finish this stage: succeeds only once the likelihood storage is
    /// complete, handing the final-stage builder a copy of everything.
    pub fn next_builder(&self) -> (r: Result<EmBuilderLast, BuildError<()>>)
        ensures
            self.likelihoods_arr is Complete <==> r is Ok,
            r is Ok ==> {
                let b = r->Ok_0;
                &&& b.normal == self.normal
                &&& b.abnormals@ == self.abnormals@
                &&& arr1_contents(b.sample_arr) == arr1_contents(self.sample_arr)
                &&& (self.likelihoods_arr matches FieldStatus::Complete(m) && arr2_shape(
                    b.likelihoods_arr,
                ) == arr2_shape(m) && arr2_contents(b.likelihoods_arr) == arr2_contents(m))
                &&& b.converge_checker is None
                &&& b.epochs == self.epochs
            },
            r is Err ==> (r->Err_0 matches BuildError::IncompleteBuildError(e) && e.field@
                == "likelihoods_arr"@),
    {
        match &self.likelihoods_arr {
            FieldStatus::Complete(m) => Ok(
                EmBuilderLast {
                    normal: self.normal,
                    abnormals: copy_params(&self.abnormals),
                    sample_arr: self.sample_arr.duplicate(),
                    likelihoods_arr: m.duplicate(),
                    converge_checker: None,
                    epochs: self.epochs,
                },
            ),
            _ => Err(
                BuildError::IncompleteBuildError(
                    MissingFieldError { my_struct: (), field: "likelihoods_arr".to_string() },
                ),
            ),
        }
    }
}

/// Final stage: every required field is present; a convergence checker may
/// be attached before the model is produced.
pub struct EmBuilderLast {
    pub normal: NormalParams,
    pub abnormals: Vec<NormalParams>,
    pub sample_arr: SampleArray,
    pub likelihoods_arr: LikelihoodGrid,
    pub converge_checker: Option<LikelihoodChecker>,
    pub epochs: PositiveInteger,
}

impl EmBuilderLast {
    /// Assemble the standard model from copies of the gathered fields.
    pub fn get_standard_model(&self) -> (m: EmModel)
        ensures
            m.normal == self.normal,
            m.abnormals@ == self.abnormals@,
            arr1_contents(m.samples) == arr1_contents(self.sample_arr),
            arr2_shape(m.likelihoods) == arr2_shape(self.likelihoods_arr),
            arr2_contents(m.likelihoods) == arr2_contents(self.likelihoods_arr),
            m.epochs == self.epochs,
    {
        EmModel {
            normal: self.normal,
            abnormals: copy_params(&self.abnormals),
            samples: self.sample_arr.duplicate(),
            likelihoods: self.likelihoods_arr.duplicate(),
            epochs: self.epochs,
        }
    }

    /// Assemble the early-stopping model; the convergence checker must have
    /// been attached first.
    pub fn get_early_stop_model(&self) -> (r: EarlyStopEmModel)
        requires
            self.converge_checker is Some,
        ensures
            r.em_model.normal == self.normal,
            r.em_model.abnormals@ == self.abnormals@,
            arr1_contents(r.em_model.samples) == arr1_contents(self.sample_arr),
            arr2_shape(r.em_model.likelihoods) == arr2_shape(self.likelihoods_arr),
            arr2_contents(r.em_model.likelihoods) == arr2_contents(self.likelihoods_arr),
            r.em_model.epochs == self.epochs,
            arr2_shape(r.converge_checker.prev_likelihood) == arr2_shape(
                self.converge_checker->0.prev_likelihood,
            ),
            arr2_contents(r.converge_checker.prev_likelihood) == arr2_contents(
                self.converge_checker->0.prev_likelihood,
            ),
    {
        let em_model = self.get_standard_model();
        let converge_checker = match &self.converge_checker {
            Some(c) => LikelihoodChecker { prev_likelihood: c.prev_likelihood.duplicate() },
            None => unreached(),
        };
        EarlyStopEmModel { em_model, converge_checker }
    }

    /// Attach a convergence checker whose previous-likelihood storage is
    /// zeroed and matches the model's likelihood storage in shape.
    pub fn build_likelihood_converge_checker(&mut self)
        requires
            0 <= arr2_shape(old(self).likelihoods_arr).0 * arr2_shape(
                old(self).likelihoods_arr,
            ).1 < 0x1000_0000_0000_0000,
        ensures
            (final(self).converge_checker matches Some(c) && arr2_shape(c.prev_likelihood)
                == arr2_shape(old(self).likelihoods_arr) && arr2_contents(c.prev_likelihood).len()
                == arr2_contents(old(self).likelihoods_arr).len() && (forall|i: int|
                0 <= i < arr2_contents(c.prev_likelihood).len() ==> forall|j: int|
                    0 <= j < (#[trigger] arr2_contents(c.prev_likelihood)[i]).len()
                        ==> arr2_contents(c.prev_likelihood)[i][j] == 0)),
            final(self).normal == old(self).normal,
            final(self).abnormals@ == old(self).abnormals@,
            final(self).sample_arr == old(self).sample_arr,
            final(self).likelihoods_arr == old(self).likelihoods_arr,
            final(self).epochs == old(self).epochs,
    {
        let rows: usize = self.likelihoods_arr.nrows();
        let cols: usize = self.likelihoods_arr.ncols();
        let likelihood_check = LikelihoodGrid::zeros(rows, cols);
        self.converge_checker = Some(LikelihoodChecker { prev_likelihood: likelihood_check });
    }
}

} // verus!
