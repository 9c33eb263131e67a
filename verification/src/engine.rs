use vstd::prelude::*;

use crate::normal_inverse_gamma::spec_posterior;
use crate::normal_inverse_gamma::NormalInverseGamma;
use crate::LIKE_MAX;
use crate::PARAM_MAX;
use crate::SCALE;
use crate::X_MAX;
use vstd::arithmetic::div_mod::lemma_div_is_ordered;
use vstd::arithmetic::div_mod::lemma_div_multiples_vanish;
use vstd::arithmetic::div_mod::lemma_fundamental_div_mod;
use vstd::arithmetic::mul::lemma_mul_inequality;

verus! {

/// Weight below which a trailing hypothesis is pruned when no threshold is
/// given: the fixed-point image of one millionth.
pub const DEFAULT_PRUNE_THRESHOLD: u64 = 1000;

/// The ways an update can be refused.
#[derive(Clone, Copy, Debug, PartialEq, Eq, Structural)]
pub enum UpdateError {
    /// The expected run length handed to the update was not strictly positive.
    InvalidHazard,
    /// The total probability mass collapsed to zero during renormalization;
    /// the engine instance should be discarded.
    NumericalDegeneracy,
}

/// Rejection at construction: one of kappa, alpha, beta was not strictly
/// positive, or a parameter lay outside the representable range.
#[derive(Clone, Copy, Debug, PartialEq, Eq, Structural)]
pub struct InvalidPriorError;

/// One live run-length hypothesis: the posterior parameters it has
/// accumulated, and its share of the probability mass (a fixed-point
/// fraction of `SCALE`).
#[derive(Clone, Copy, Debug, PartialEq, Eq, Structural)]
pub struct Hypothesis {
    pub params: NormalInverseGamma,
    pub weight: u64,
}

/// The sum of the weights of a hypothesis sequence.
pub open spec fn sum_weights(s: Seq<Hypothesis>) -> int
    decreases s.len(),
{
    if s.len() == 0 {
        0
    } else {
        sum_weights(s.drop_last()) + s.last().weight
    }
}

/// The weight-likelihood inner product over a hypothesis sequence.
pub open spec fn weighted_sum(s: Seq<Hypothesis>, l: Seq<u64>) -> int
    recommends
        s.len() == l.len(),
    decreases s.len(),
{
    if s.len() == 0 {
        0
    } else {
        weighted_sum(s.drop_last(), l.drop_last()) + s.last().weight * l[s.len() - 1]
    }
}

pub proof fn lemma_sum_push(s: Seq<Hypothesis>, h: Hypothesis)
    ensures
        sum_weights(s.push(h)) == sum_weights(s) + h.weight,
{
    assert(s.push(h).drop_last() =~= s);
    assert(s.push(h).last() == h);
}

pub proof fn lemma_sum_take_push(s: Seq<Hypothesis>, i: int)
    requires
        0 <= i < s.len(),
    ensures
        sum_weights(s.take(i + 1)) == sum_weights(s.take(i)) + s[i].weight,
{
    assert(s.take(i + 1).drop_last() =~= s.take(i));
    assert(s.take(i + 1).last() == s[i]);
}

pub proof fn lemma_weighted_take_push(s: Seq<Hypothesis>, l: Seq<u64>, i: int)
    requires
        0 <= i < s.len(),
        i < l.len(),
    ensures
        weighted_sum(s.take(i + 1), l.take(i + 1)) == weighted_sum(s.take(i), l.take(i)) + s[i].weight
            * l[i],
{
    assert(s.take(i + 1).drop_last() =~= s.take(i));
    assert(l.take(i + 1).drop_last() =~= l.take(i));
    assert(s.take(i + 1).last() == s[i]);
}

pub proof fn lemma_sum_nonneg(s: Seq<Hypothesis>)
    ensures
        sum_weights(s) >= 0,
    decreases s.len(),
{
    if s.len() > 0 {
        lemma_sum_nonneg(s.drop_last());
    }
}

pub proof fn lemma_weighted_nonneg(s: Seq<Hypothesis>, l: Seq<u64>)
    ensures
        weighted_sum(s, l) >= 0,
    decreases s.len(),
{
    if s.len() > 0 {
        lemma_weighted_nonneg(s.drop_last(), l.drop_last());
        assert(s.last().weight * l[s.len() - 1] >= 0) by (nonlinear_arith)
            requires s.last().weight >= 0, l[s.len() - 1] >= 0;
    }
}

/// A prefix of the weights never sums to more than the whole.
pub proof fn lemma_sum_take_le(s: Seq<Hypothesis>, i: int)
    requires
        0 <= i <= s.len(),
    ensures
        sum_weights(s.take(i)) <= sum_weights(s),
    decreases s.len() - i,
{
    if i == s.len() {
        assert(s.take(i) =~= s);
    } else {
        lemma_sum_take_push(s, i);
        lemma_sum_take_le(s, i + 1);
    }
}

/// A prefix of the weight-likelihood products never sums to more than the whole.
pub proof fn lemma_weighted_take_le(s: Seq<Hypothesis>, l: Seq<u64>, i: int)
    requires
        0 <= i <= s.len(),
        s.len() == l.len(),
    ensures
        weighted_sum(s.take(i), l.take(i)) <= weighted_sum(s, l),
    decreases s.len() - i,
{
    if i == s.len() {
        assert(s.take(i) =~= s);
        assert(l.take(i) =~= l);
    } else {
        lemma_weighted_take_push(s, l, i);
        lemma_weighted_take_le(s, l, i + 1);
        assert(s[i].weight * l[i] >= 0) by (nonlinear_arith)
            requires s[i].weight >= 0, l[i] >= 0;
    }
}

/// Each single weight-likelihood product is bounded by the whole sum.
pub proof fn lemma_weighted_term_le(s: Seq<Hypothesis>, l: Seq<u64>, i: int)
    requires
        0 <= i < s.len(),
        s.len() == l.len(),
    ensures
        s[i].weight * l[i] <= weighted_sum(s, l),
{
    lemma_weighted_take_push(s, l, i);
    lemma_weighted_nonneg(s.take(i), l.take(i));
    lemma_weighted_take_le(s, l, i + 1);
}

/// The per-step change-point probability implied by an expected run length
/// `lambda` (both in fixed point): the image of 1/lambda, capped at one.
pub open spec fn spec_hazard(lambda: int) -> int
    recommends
        lambda > 0,
{
    let h = (SCALE * SCALE) / lambda;
    if h > SCALE {
        SCALE as int
    } else {
        h
    }
}

/// The grown hypothesis at index `i` of the old set: parameters
/// conjugate-updated with `x`, weight the normalized growth mass
/// w * like * (1 - hazard) / (total weighted likelihood).
pub open spec fn spec_grown(s: Seq<Hypothesis>, l: Seq<u64>, x: int, h: int) -> Seq<Hypothesis> {
    let wl = weighted_sum(s, l);
    Seq::new(
        s.len(),
        |i: int|
            Hypothesis {
                params: spec_posterior(s[i].params, x),
                weight: ((s[i].weight * l[i] * (SCALE - h)) / wl) as u64,
            },
    )
}

/// The hypothesis set after growth and renormalization: a fresh prior
/// hypothesis at run length zero carrying all mass the grown hypotheses do
/// not, followed by the grown hypotheses. The weights sum to `SCALE` by
/// construction.
pub open spec fn spec_stage1(
    prior: NormalInverseGamma,
    s: Seq<Hypothesis>,
    l: Seq<u64>,
    x: int,
    h: int,
) -> Seq<Hypothesis> {
    let grown = spec_grown(s, l, x, h);
    seq![
        Hypothesis { params: prior, weight: (SCALE - sum_weights(grown)) as u64 },
    ].add(grown)
}

/// Pruning: trailing hypotheses (largest run length first) fall while their
/// weight is below the threshold; the run-length-zero hypothesis is never
/// pruned.
pub open spec fn spec_pruned(s: Seq<Hypothesis>, thr: u64) -> Seq<Hypothesis>
    decreases s.len(),
{
    if s.len() > 1 && s.last().weight < thr {
        spec_pruned(s.drop_last(), thr)
    } else {
        s
    }
}

/// Renormalization after pruning: each weight is scaled by
/// SCALE / (total kept weight), and the run-length-zero hypothesis absorbs
/// the rounding remainder so the weights again sum to `SCALE`.
pub open spec fn spec_renormed(s: Seq<Hypothesis>) -> Seq<Hypothesis>
    recommends
        s.len() >= 1,
        sum_weights(s) > 0,
{
    let tot = sum_weights(s);
    let scaled = Seq::new(
        s.len(),
        |i: int| Hypothesis { params: s[i].params, weight: ((s[i].weight * SCALE) / tot) as u64 },
    );
    scaled.update(
        0,
        Hypothesis {
            params: s[0].params,
            weight: ((s[0].weight * SCALE) / tot + SCALE - sum_weights(scaled)) as u64,
        },
    )
}

/// The Bayesian online change-point detection engine: a posterior over run
/// lengths, one hypothesis per live run length in ascending order, run
/// length zero first.
pub struct BocpdEngine {
    hyps: Vec<Hypothesis>,
    t: usize,
    prior: NormalInverseGamma,
    pruning: bool,
    threshold: u64,
}

impl BocpdEngine {
    /// The live hypotheses, ascending by run length.
    pub closed spec fn spec_hyps(&self) -> Seq<Hypothesis> {
        self.hyps@
    }

    /// The observation counter.
    pub closed spec fn spec_t(&self) -> int {
        self.t as int
    }

    /// The prior seeding every fresh change-point hypothesis.
    pub closed spec fn spec_prior(&self) -> NormalInverseGamma {
        self.prior
    }

    /// Whether trailing negligible hypotheses are pruned after each update.
    pub closed spec fn spec_pruning(&self) -> bool {
        self.pruning
    }

    /// The negligible-weight threshold used when pruning is enabled.
    pub closed spec fn spec_threshold(&self) -> u64 {
        self.threshold
    }

    /// The engine invariant: at least one live hypothesis, weights summing
    /// exactly to `SCALE` with each individual weight within it, valid
    /// parameters everywhere, and — while pruning is disabled — exactly
    /// `t + 1` live hypotheses.
    pub open spec fn wf(&self) -> bool {
        &&& self.spec_hyps().len() >= 1
        &&& sum_weights(self.spec_hyps()) == SCALE
        &&& forall|i: int|
            0 <= i < self.spec_hyps().len() ==> (#[trigger] self.spec_hyps()[i]).params.valid()
                && self.spec_hyps()[i].weight <= SCALE
        &&& self.spec_prior().valid()
        &&& !self.spec_pruning() ==> self.spec_hyps().len() == self.spec_t() + 1
    }

    /// Build an engine from the four prior hyperparameters (in fixed point)
    /// and the pruning configuration. Construction fails exactly when one of
    /// kappa, alpha, beta is not strictly positive or a parameter lies
    /// outside the representable range; nothing is ever silently clamped.
    pub fn new(
        alpha: i64,
        beta: i64,
        mu: i64,
        kappa: i64,
        pruning_enabled: bool,
        pruning_threshold: Option<u64>,
    ) -> (r: Result<BocpdEngine, InvalidPriorError>)
        ensures
            (NormalInverseGamma { alpha, beta, mu, kappa }).valid() <==> r is Ok,
            r is Ok ==> {
                let e = r->Ok_0;
                &&& e.wf()
                &&& e.spec_prior() == (NormalInverseGamma { alpha, beta, mu, kappa })
                &&& e.spec_hyps() =~= seq![
                    Hypothesis { params: e.spec_prior(), weight: SCALE as u64 },
                ]
                &&& e.spec_t() == 0
                &&& e.spec_pruning() == pruning_enabled
                &&& e.spec_threshold() == (match pruning_threshold {
                    Some(thr) => thr,
                    None => DEFAULT_PRUNE_THRESHOLD,
                })
            },
    {
        if !(0 < kappa && kappa <= PARAM_MAX && 0 < alpha && alpha <= PARAM_MAX && 0 < beta
            && beta <= PARAM_MAX && -X_MAX <= mu && mu <= X_MAX) {
            return Err(InvalidPriorError);
        }
        let prior = NormalInverseGamma { alpha, beta, mu, kappa };
        let mut hyps: Vec<Hypothesis> = Vec::new();
        hyps.push(Hypothesis { params: prior, weight: SCALE as u64 });
        proof {
            lemma_sum_push(Seq::<Hypothesis>::empty(), Hypothesis { params: prior, weight: SCALE as u64 });
        }
        Ok(BocpdEngine { hyps, t: 0, prior, pruning: pruning_enabled, threshold: match pruning_threshold {
            Some(thr) => thr,
            None => DEFAULT_PRUNE_THRESHOLD,
        } })
    }

    /// The number of live hypotheses (run lengths) currently tracked.
    pub fn params_length(&self) -> (n: usize)
        ensures
            n == self.spec_hyps().len(),
    {
        self.hyps.len()
    }

    /// The current weight of every live hypothesis, ascending by run length.
    pub fn weights(&self) -> (w: Vec<u64>)
        ensures
            w@.len() == self.spec_hyps().len(),
            forall|i: int| 0 <= i < w@.len() ==> w@[i] == self.spec_hyps()[i].weight,
    {
        let mut w: Vec<u64> = Vec::new();
        let mut i: usize = 0;
        while i < self.hyps.len()
            invariant
                i <= self.hyps.len(),
                w@.len() == i,
                forall|j: int| 0 <= j < i ==> w@[j] == self.hyps@[j].weight,
            decreases self.hyps.len() - i,
        {
            w.push(self.hyps[i].weight);
            i += 1;
        }
        w
    }

    /// The posterior parameters of the hypothesis at run length `i`, or
    /// `None` past the live range.
    pub fn hypothesis_params(&self, i: usize) -> (r: Option<NormalInverseGamma>)
        ensures
            i < self.spec_hyps().len() ==> r == Some(self.spec_hyps()[i as int].params),
            i >= self.spec_hyps().len() ==> r is None,
    {
        if i < self.hyps.len() {
            Some(self.hyps[i].params)
        } else {
            None
        }
    }
}

pub proof fn lemma_sum_concat(a: Seq<Hypothesis>, b: Seq<Hypothesis>)
    ensures
        sum_weights(a + b) == sum_weights(a) + sum_weights(b),
    decreases b.len(),
{
    if b.len() == 0 {
        assert(a + b =~= a);
    } else {
        lemma_sum_concat(a, b.drop_last());
        assert((a + b).drop_last() =~= a + b.drop_last());
        assert((a + b).last() == b.last());
    }
}

/// Each single weight is bounded by the sum of all of them.
pub proof fn lemma_sum_term_le(s: Seq<Hypothesis>, i: int)
    requires
        0 <= i < s.len(),
    ensures
        s[i].weight <= sum_weights(s),
{
    lemma_sum_take_push(s, i);
    lemma_sum_nonneg(s.take(i));
    lemma_sum_take_le(s, i + 1);
}

/// The hazard function: the per-step change-point probability implied by an
/// expected run length `lambda`, both in fixed point. Geometric, so the same
/// for every run length. Fails exactly when `lambda` is not strictly
/// positive.
pub fn hazard(lambda: i64) -> (r: Result<u64, UpdateError>)
    ensures
        lambda > 0 <==> r is Ok,
        r is Ok ==> r->Ok_0 == spec_hazard(lambda as int) && r->Ok_0 <= SCALE,
        r is Err ==> r->Err_0 == UpdateError::InvalidHazard,
{
    if lambda <= 0 {
        return Err(UpdateError::InvalidHazard);
    }
    proof {
        assert((SCALE as int) * (SCALE as int) == 1_000_000_000_000_000_000) by (nonlinear_arith)
            requires SCALE == 1_000_000_000;
    }
    let num: u128 = (SCALE as u128) * (SCALE as u128);
    let h: u128 = num / (lambda as u128);
    if h > SCALE as u128 {
        Ok(SCALE as u64)
    } else {
        Ok(h as u64)
    }
}

impl BocpdEngine {
    /// The weight-likelihood inner product of the live hypotheses with the
    /// supplied per-hypothesis likelihoods.
    fn weighted_like_sum(hyps: &Vec<Hypothesis>, likes: &Vec<u64>) -> (r: u128)
        requires
            hyps@.len() == likes@.len(),
            sum_weights(hyps@) <= SCALE,
            forall|i: int| 0 <= i < likes@.len() ==> (#[trigger] likes@[i]) <= LIKE_MAX,
        ensures
            r == weighted_sum(hyps@, likes@),
            r <= (SCALE as int) * (LIKE_MAX as int),
    {
        let ghost s = hyps@;
        let ghost l = likes@;
        let mut acc: u128 = 0;
        let mut i: usize = 0;
        proof {
            assert(s.take(0) =~= Seq::<Hypothesis>::empty());
            assert(l.take(0) =~= Seq::<u64>::empty());
        }
        while i < hyps.len()
            invariant
                i <= hyps.len(),
                s == hyps@,
                l == likes@,
                s.len() == l.len(),
                sum_weights(s) <= SCALE,
                forall|j: int| 0 <= j < l.len() ==> (#[trigger] l[j]) <= LIKE_MAX,
                acc == weighted_sum(s.take(i as int), l.take(i as int)),
                acc <= sum_weights(s.take(i as int)) * (LIKE_MAX as int),
                sum_weights(s.take(i as int)) <= SCALE,
            decreases hyps.len() - i,
        {
            let w: u64 = hyps[i].weight;
            let lk: u64 = likes[i];
            proof {
                lemma_weighted_take_push(s, l, i as int);
                lemma_sum_take_push(s, i as int);
                lemma_sum_take_le(s, (i + 1) as int);
                lemma_sum_nonneg(s.take(i as int));
                assert(w * lk <= w * (LIKE_MAX as int)) by (nonlinear_arith)
                    requires lk <= LIKE_MAX, w >= 0;
                assert(sum_weights(s.take(i as int)) * (LIKE_MAX as int) + w * (LIKE_MAX as int)
                    == (sum_weights(s.take(i as int)) + w) * (LIKE_MAX as int)) by (nonlinear_arith);
                assert((sum_weights(s.take(i as int)) + w) * (LIKE_MAX as int) <= (SCALE as int) * (
                LIKE_MAX as int)) by (nonlinear_arith)
                    requires sum_weights(s.take(i as int)) + w <= SCALE;
            }
            acc = acc + (w as u128) * (lk as u128);
            i += 1;
        }
        proof {
            assert(s.take(s.len() as int) =~= s);
            assert(l.take(l.len() as int) =~= l);
            lemma_sum_nonneg(s);
            assert(weighted_sum(s, l) <= sum_weights(s) * (LIKE_MAX as int));
            assert(sum_weights(s) * (LIKE_MAX as int) <= (SCALE as int) * (LIKE_MAX as int))
                by (nonlinear_arith)
                requires sum_weights(s) <= SCALE;
        }
        acc
    }

    /// The anomaly score of `point`, given the predictive likelihood of
    /// `point` under each live hypothesis (in fixed point, ascending by run
    /// length): the weighted mixture likelihood. High when the point is well
    /// explained by the hypotheses that carry the mass, near zero when it is
    /// not. Pure: the engine is left untouched, and the same frozen state
    /// gives the same score for the same inputs.
    pub fn predict(&self, likes: &Vec<u64>) -> (r: u64)
        requires
            self.wf(),
            likes@.len() == self.spec_hyps().len(),
            forall|i: int| 0 <= i < likes@.len() ==> (#[trigger] likes@[i]) <= LIKE_MAX,
        ensures
            r == weighted_sum(self.spec_hyps(), likes@) / (SCALE as int),
            r <= LIKE_MAX,
    {
        let wl: u128 = BocpdEngine::weighted_like_sum(&self.hyps, likes);
        let score: u128 = wl / (SCALE as u128);
        proof {
            lemma_weighted_nonneg(self.spec_hyps(), likes@);
            lemma_div_is_ordered(wl as int, (SCALE as int) * (LIKE_MAX as int), SCALE as int);
            lemma_div_multiples_vanish(LIKE_MAX as int, SCALE as int);
        }
        score as u64
    }
}

impl BocpdEngine {
    /// Whether an update with these inputs succeeds: the expected run length
    /// must be positive, the mixture likelihood of the observation must not
    /// vanish, and — when pruning — the kept hypotheses must retain some
    /// mass.
    pub open spec fn spec_update_ok(&self, x: int, lambda: int, l: Seq<u64>) -> bool {
        &&& lambda > 0
        &&& weighted_sum(self.spec_hyps(), l) > 0
        &&& (self.spec_pruning() ==> sum_weights(
            spec_pruned(
                spec_stage1(self.spec_prior(), self.spec_hyps(), l, x, spec_hazard(lambda)),
                self.spec_threshold(),
            ),
        ) > 0)
    }

    /// The hypothesis set a successful update leaves behind: growth and
    /// renormalization, then — when pruning — truncation of negligible
    /// trailing hypotheses and a second renormalization.
    pub open spec fn spec_new_hyps(&self, x: int, lambda: int, l: Seq<u64>) -> Seq<Hypothesis> {
        let s1 = spec_stage1(self.spec_prior(), self.spec_hyps(), l, x, spec_hazard(lambda));
        if self.spec_pruning() {
            spec_renormed(spec_pruned(s1, self.spec_threshold()))
        } else {
            s1
        }
    }

    /// One observation step. `likes` holds the predictive likelihood of
    /// `x` under each live hypothesis, ascending by run length, in fixed
    /// point. On success the hypothesis set is replaced by the grown,
    /// renormalized (and possibly pruned) set and the observation counter
    /// advances; on any error the engine is left exactly as it was.
    pub fn update(&mut self, x: i64, lambda: i64, likes: &Vec<u64>) -> (r: Result<(), UpdateError>)
        requires
            old(self).wf(),
            lambda > 0 ==> likes@.len() == old(self).spec_hyps().len(),
            lambda > 0 ==> forall|i: int|
                0 <= i < likes@.len() ==> (#[trigger] likes@[i]) <= LIKE_MAX,
            lambda > 0 ==> -X_MAX <= x <= X_MAX,
        ensures
            final(self).wf(),
            r is Ok <==> old(self).spec_update_ok(x as int, lambda as int, likes@),
            r is Err ==> *final(self) == *old(self),
            lambda <= 0 ==> r == Err::<(), UpdateError>(UpdateError::InvalidHazard),
            lambda > 0 && r is Err ==> r == Err::<(), UpdateError>(UpdateError::NumericalDegeneracy),
            r is Ok ==> final(self).spec_hyps() == old(self).spec_new_hyps(
                x as int,
                lambda as int,
                likes@,
            ),
            r is Ok ==> sum_weights(final(self).spec_hyps()) == SCALE,
            r is Ok ==> final(self).spec_hyps()[0].params == old(self).spec_prior(),
            r is Ok && !old(self).spec_pruning() ==> final(self).spec_hyps().len() == old(
                self,
            ).spec_hyps().len() + 1,
            r is Ok && old(self).spec_pruning() ==> final(self).spec_hyps().len() == 1 || final(
                self).spec_hyps().last().weight >= old(self).spec_threshold(),
            r is Ok ==> final(self).spec_t() == (if old(self).spec_t() == usize::MAX {
                old(self).spec_t()
            } else {
                old(self).spec_t() + 1
            }),
            final(self).spec_prior() == old(self).spec_prior(),
            final(self).spec_pruning() == old(self).spec_pruning(),
            final(self).spec_threshold() == old(self).spec_threshold(),
    {
        let ghost s0 = self.hyps@;
        let ghost l = likes@;
        if lambda <= 0 {
            return Err(UpdateError::InvalidHazard);
        }
        let h: u64 = match hazard(lambda) {
            Ok(h) => h,
            Err(_) => unreached(),
        };
        let ghost hi = spec_hazard(lambda as int);
        let wl_u: u128 = BocpdEngine::weighted_like_sum(&self.hyps, likes);
        let ghost wl = weighted_sum(s0, l);
        if wl_u == 0 {
            proof {
                lemma_weighted_nonneg(s0, l);
            }
            return Err(UpdateError::NumericalDegeneracy);
        }
        let ghost g = spec_grown(s0, l, x as int, hi);
        let n: usize = self.hyps.len();
        let mut grown: Vec<Hypothesis> = Vec::new();
        let mut acc: u64 = 0;
        let mut i: usize = 0;
        proof {
            assert(s0.take(0) =~= Seq::<Hypothesis>::empty());
            assert(l.take(0) =~= Seq::<u64>::empty());
        }
        while i < n
            invariant
                i <= n,
                n == s0.len(),
                s0 == self.hyps@,
                l == likes@,
                l.len() == n,
                self.wf(),
                -X_MAX <= x <= X_MAX,
                forall|j: int| 0 <= j < n ==> (#[trigger] l[j]) <= LIKE_MAX,
                0 <= h <= SCALE,
                h == hi,
                wl == weighted_sum(s0, l),
                wl_u == wl,
                wl > 0,
                wl <= (SCALE as int) * (LIKE_MAX as int),
                g == spec_grown(s0, l, x as int, hi),
                grown@.len() == i,
                forall|j: int| 0 <= j < i ==> grown@[j] == g[j],
                forall|j: int|
                    0 <= j < i ==> (#[trigger] grown@[j]).params.valid() && grown@[j].weight <= SCALE
                        - h,
                acc == sum_weights(grown@),
                wl * acc <= (SCALE - h) * weighted_sum(s0.take(i as int), l.take(i as int)),
                acc <= SCALE - h,
            decreases n - i,
        {
            let w: u64 = self.hyps[i].weight;
            let lk: u64 = likes[i];
            proof {
                assert(s0[i as int].weight <= SCALE && s0[i as int].params.valid());
                assert(w * lk <= (SCALE as int) * (LIKE_MAX as int)) by (nonlinear_arith)
                    requires 0 <= w <= SCALE, 0 <= lk <= LIKE_MAX;
                lemma_weighted_term_le(s0, l, i as int);
                assert(w * lk * (SCALE - h) <= wl * (SCALE - h)) by (nonlinear_arith)
                    requires w * lk <= wl, 0 <= SCALE - h;
                assert(wl * (SCALE - h) <= (SCALE as int) * (LIKE_MAX as int) * (SCALE as int))
                    by (nonlinear_arith)
                    requires 0 < wl <= (SCALE as int) * (LIKE_MAX as int), 0 <= SCALE - h <= SCALE;
            }
            let m: u128 = (w as u128) * (lk as u128) * ((SCALE as u64 - h) as u128);
            let nw_u: u128 = m / wl_u;
            proof {
                lemma_div_is_ordered(m as int, wl * (SCALE - h), wl);
                lemma_div_multiples_vanish(SCALE - h, wl);
                assert(wl * (SCALE - h) == (SCALE - h) * wl) by (nonlinear_arith);
                assert(nw_u <= SCALE - h);
            }
            let nw: u64 = nw_u as u64;
            let p: NormalInverseGamma = self.hyps[i].params;
            let np: NormalInverseGamma = p.posterior(x);
            let hyp = Hypothesis { params: np, weight: nw };
            proof {
                assert(hyp == g[i as int]);
                lemma_sum_push(grown@, hyp);
                lemma_weighted_take_push(s0, l, i as int);
                lemma_fundamental_div_mod(m as int, wl);
                vstd::arithmetic::div_mod::lemma_mod_bound(m as int, wl);
                assert(wl * (acc + nw) <= (SCALE - h) * weighted_sum(
                    s0.take(i + 1),
                    l.take(i + 1),
                )) by (nonlinear_arith)
                    requires
                        wl * acc <= (SCALE - h) * weighted_sum(s0.take(i as int), l.take(i as int)),
                        wl * nw <= m,
                        m == w * lk * (SCALE - h),
                        weighted_sum(s0.take(i + 1), l.take(i + 1)) == weighted_sum(
                            s0.take(i as int),
                            l.take(i as int),
                        ) + w * lk,
                ;
                lemma_weighted_take_le(s0, l, i + 1);
                assert(acc + nw <= SCALE - h) by (nonlinear_arith)
                    requires
                        wl * (acc + nw) <= (SCALE - h) * weighted_sum(s0.take(i + 1), l.take(i + 1)),
                        weighted_sum(s0.take(i + 1), l.take(i + 1)) <= wl,
                        wl > 0,
                        0 <= SCALE - h,
                ;
                assert((SCALE - h) * weighted_sum(s0.take(i + 1), l.take(i + 1)) <= (SCALE - h)
                    * wl) by (nonlinear_arith)
                    requires
                        weighted_sum(s0.take(i + 1), l.take(i + 1)) <= wl,
                        0 <= SCALE - h,
                ;
            }
            grown.push(hyp);
            acc = acc + nw;
            i += 1;
        }
        proof {
            assert(grown@ =~= g);
        }
        let cp = Hypothesis { params: self.prior, weight: SCALE as u64 - acc };
        let mut s1vec: Vec<Hypothesis> = Vec::new();
        s1vec.push(cp);
        s1vec.append(&mut grown);
        let ghost s1 = spec_stage1(self.prior, s0, l, x as int, hi);
        proof {
            assert(Seq::<Hypothesis>::empty().push(cp) =~= seq![cp]);
            assert(s1vec@ =~= s1);
            lemma_sum_concat(seq![cp], g);
            assert(seq![cp].drop_last() =~= Seq::<Hypothesis>::empty());
            assert(sum_weights(seq![cp]) == sum_weights(Seq::<Hypothesis>::empty()) + cp.weight);
            assert(sum_weights(Seq::<Hypothesis>::empty()) == 0);
            assert(sum_weights(s1vec@) == SCALE);
            assert(forall|j: int|
                0 <= j < s1vec@.len() ==> (#[trigger] s1vec@[j]).params.valid() && s1vec@[j].weight
                    <= SCALE);
        }
        if !self.pruning {
            self.hyps = s1vec;
            self.t = self.t + 1;
            return Ok(());
        }
        let thr: u64 = self.threshold;
        let mut kept = s1vec;
        proof {
            assert(kept@ =~= s1.take(s1.len() as int));
        }
        while kept.len() > 1 && kept[kept.len() - 1].weight < thr
            invariant
                1 <= kept@.len() <= s1.len(),
                kept@ == s1.take(kept@.len() as int),
                spec_pruned(kept@, thr) == spec_pruned(s1, thr),
            decreases kept.len(),
        {
            let ghost klen = kept@.len() as int;
            kept.pop();
            proof {
                assert(s1.take(klen).subrange(0, klen - 1) =~= s1.take(klen - 1));
            }
        }
        proof {
            assert(kept@ == spec_pruned(s1, thr));
            lemma_sum_take_le(s1, kept@.len() as int);
            lemma_sum_nonneg(kept@);
            assert(forall|j: int|
                0 <= j < kept@.len() ==> (#[trigger] kept@[j]).params.valid() && kept@[j].weight
                    <= SCALE);
        }
        let k: usize = kept.len();
        let mut tot2: u64 = 0;
        let mut j: usize = 0;
        proof {
            assert(kept@.take(0) =~= Seq::<Hypothesis>::empty());
        }
        while j < k
            invariant
                j <= k,
                k == kept@.len(),
                sum_weights(kept@) <= SCALE,
                tot2 == sum_weights(kept@.take(j as int)),
                tot2 <= SCALE,
            decreases k - j,
        {
            proof {
                lemma_sum_take_push(kept@, j as int);
                lemma_sum_take_le(kept@, j + 1);
                lemma_sum_nonneg(kept@.take(j as int));
            }
            tot2 = tot2 + kept[j].weight;
            j += 1;
        }
        proof {
            assert(kept@.take(k as int) =~= kept@);
        }
        if tot2 == 0 {
            return Err(UpdateError::NumericalDegeneracy);
        }
        let ghost scaled = Seq::new(
            kept@.len(),
            |i: int|
                Hypothesis {
                    params: kept@[i].params,
                    weight: ((kept@[i].weight * SCALE) / sum_weights(kept@)) as u64,
                },
        );
        let mut sv: Vec<Hypothesis> = Vec::new();
        let mut acc3: u64 = 0;
        let mut j2: usize = 0;
        while j2 < k
            invariant
                j2 <= k,
                k == kept@.len(),
                1 <= k,
                tot2 == sum_weights(kept@),
                0 < tot2 <= SCALE,
                scaled == Seq::new(
                    kept@.len(),
                    |i: int|
                        Hypothesis {
                            params: kept@[i].params,
                            weight: ((kept@[i].weight * SCALE) / sum_weights(kept@)) as u64,
                        },
                ),
                forall|j: int|
                    0 <= j < k ==> (#[trigger] kept@[j]).params.valid() && kept@[j].weight <= SCALE,
                sv@.len() == j2,
                forall|i: int| 0 <= i < j2 ==> sv@[i] == scaled[i],
                forall|i: int| 0 <= i < j2 ==> (#[trigger] sv@[i].weight) >= kept@[i].weight,
                forall|i: int|
                    0 <= i < j2 ==> (#[trigger] sv@[i]).params.valid() && sv@[i].weight <= SCALE,
                acc3 == sum_weights(sv@),
                tot2 * acc3 <= SCALE * sum_weights(kept@.take(j2 as int)),
                acc3 <= SCALE,
            decreases k - j2,
        {
            let w: u64 = kept[j2].weight;
            proof {
                lemma_sum_term_le(kept@, j2 as int);
                assert(w * SCALE <= tot2 * SCALE) by (nonlinear_arith)
                    requires 0 <= w <= tot2;
                assert(tot2 * SCALE <= (SCALE as int) * (SCALE as int)) by (nonlinear_arith)
                    requires 0 < tot2 <= SCALE;
            }
            let nw_u: u128 = ((w as u128) * (SCALE as u128)) / (tot2 as u128);
            proof {
                lemma_div_is_ordered(w * SCALE, tot2 * SCALE, tot2 as int);
                lemma_div_multiples_vanish(SCALE as int, tot2 as int);
                assert(tot2 * SCALE == (tot2 as int) * (SCALE as int)) by (nonlinear_arith);
                assert(nw_u <= SCALE);
            }
            let nw: u64 = nw_u as u64;
            proof {
                assert(w * tot2 <= w * SCALE) by (nonlinear_arith)
                    requires 0 <= w, 0 < tot2 <= SCALE;
                lemma_div_is_ordered(w * tot2, w * SCALE, tot2 as int);
                lemma_div_multiples_vanish(w as int, tot2 as int);
                assert(w * tot2 == (tot2 as int) * (w as int)) by (nonlinear_arith);
                assert(nw >= w);
            }
            let hyp = Hypothesis { params: kept[j2].params, weight: nw };
            proof {
                assert(hyp == scaled[j2 as int]);
                lemma_sum_push(sv@, hyp);
                lemma_sum_take_push(kept@, j2 as int);
                lemma_fundamental_div_mod(w * SCALE, tot2 as int);
                vstd::arithmetic::div_mod::lemma_mod_bound(w * SCALE, tot2 as int);
                assert(tot2 * (acc3 + nw) <= SCALE * sum_weights(kept@.take(j2 + 1)))
                    by (nonlinear_arith)
                    requires
                        tot2 * acc3 <= SCALE * sum_weights(kept@.take(j2 as int)),
                        tot2 * nw <= w * SCALE,
                        sum_weights(kept@.take(j2 + 1)) == sum_weights(kept@.take(j2 as int)) + w,
                ;
                lemma_sum_take_le(kept@, j2 + 1);
                assert(acc3 + nw <= SCALE) by (nonlinear_arith)
                    requires
                        tot2 * (acc3 + nw) <= SCALE * sum_weights(kept@.take(j2 + 1)),
                        sum_weights(kept@.take(j2 + 1)) <= tot2,
                        tot2 > 0,
                        SCALE > 0,
                ;
            }
            sv.push(hyp);
            acc3 = acc3 + nw;
            j2 += 1;
        }
        proof {
            assert(sv@ =~= scaled);
        }
        proof {
            lemma_sum_term_le(sv@, 0);
        }
        let fix0 = Hypothesis { params: sv[0].params, weight: sv[0].weight + (SCALE as u64 - acc3) };
        let mut out: Vec<Hypothesis> = Vec::new();
        out.push(fix0);
        let mut j3: usize = 1;
        proof {
            assert(Seq::<Hypothesis>::empty().push(fix0) =~= seq![fix0]);
            assert(scaled.subrange(1, 1) =~= Seq::<Hypothesis>::empty());
            assert(seq![fix0] =~= seq![fix0] + scaled.subrange(1, 1));
        }
        while j3 < k
            invariant
                1 <= j3 <= k,
                k == sv@.len(),
                sv@ == scaled,
                out@ == seq![fix0] + scaled.subrange(1, j3 as int),
            decreases k - j3,
        {
            let ghost pre = out@;
            out.push(sv[j3]);
            proof {
                assert(pre.push(scaled[j3 as int]) =~= seq![fix0] + scaled.subrange(
                    1,
                    j3 + 1,
                ));
            }
            j3 += 1;
        }
        proof {
            assert(out@ =~= spec_renormed(kept@));
            lemma_sum_concat(seq![fix0], scaled.subrange(1, k as int));
            assert(seq![fix0].drop_last() =~= Seq::<Hypothesis>::empty());
            lemma_sum_concat(seq![scaled[0]], scaled.subrange(1, k as int));
            assert(seq![scaled[0]].drop_last() =~= Seq::<Hypothesis>::empty());
            assert(scaled =~= seq![scaled[0]] + scaled.subrange(1, k as int));
            assert(sum_weights(out@) == SCALE);
            assert(fix0.weight <= SCALE);
            assert forall|i: int|
                0 <= i < out@.len() implies (#[trigger] out@[i]).params.valid() && out@[i].weight
                <= SCALE by {
                if i == 0 {
                    assert(out@[0] == fix0);
                } else {
                    assert(out@[i] == scaled[i]);
                }
            }
        }
        proof {
            if k > 1 {
                assert(out@.last() == scaled[k - 1]);
                assert(sv@[k - 1].weight >= kept@[k - 1].weight);
                assert(kept@[k - 1] == kept@.last());
            }
        }
        self.hyps = out;
        if self.t < usize::MAX {
            self.t = self.t + 1;
        }
        Ok(())
    }
}

/// Monotonic growth without pruning: while pruning is disabled the engine
/// holds exactly one hypothesis per run length seen so far, so after `n`
/// successful updates the hypothesis count is `n + 1`.
pub proof fn lemma_growth_without_pruning(e: BocpdEngine)
    requires
        e.wf(),
        !e.spec_pruning(),
    ensures
        e.spec_hyps().len() == e.spec_t() + 1,
{
}

/// Determinism: two engines in identical states and configurations, fed the
/// same observation, expected run length and likelihoods, succeed or fail
/// alike and leave identical hypothesis sets behind.
pub proof fn lemma_update_deterministic(
    a: BocpdEngine,
    b: BocpdEngine,
    x: int,
    lambda: int,
    l: Seq<u64>,
)
    requires
        a.spec_hyps() == b.spec_hyps(),
        a.spec_prior() == b.spec_prior(),
        a.spec_pruning() == b.spec_pruning(),
        a.spec_threshold() == b.spec_threshold(),
    ensures
        a.spec_update_ok(x, lambda, l) == b.spec_update_ok(x, lambda, l),
        a.spec_new_hyps(x, lambda, l) == b.spec_new_hyps(x, lambda, l),
{
}

impl Default for BocpdEngine {
    /// A standard-normal-like prior (alpha = beta = kappa = 1, mu = 0, in
    /// fixed point) with pruning disabled.
    fn default() -> (r: BocpdEngine)
        ensures
            r.wf(),
            r.spec_prior() == (NormalInverseGamma { alpha: SCALE, beta: SCALE, mu: 0, kappa: SCALE }),
            r.spec_hyps() =~= seq![
                Hypothesis { params: r.spec_prior(), weight: SCALE as u64 },
            ],
            r.spec_t() == 0,
            !r.spec_pruning(),
    {
        let r = BocpdEngine::new(SCALE, SCALE, 0, SCALE, false, None);
        match r {
            Ok(e) => e,
            Err(_) => {
                // unreachable: the default prior is valid
                proof {
                    assert((NormalInverseGamma { alpha: SCALE, beta: SCALE, mu: 0, kappa: SCALE }).valid());
                }
                unreached()
            },
        }
    }
}

} // verus!
