use vstd::prelude::*;

use crate::HALF_SCALE;
use crate::PARAM_MAX;
use crate::SCALE;
use crate::X_MAX;
use vstd::arithmetic::div_mod::lemma_div_is_ordered;
use vstd::arithmetic::div_mod::lemma_div_multiples_vanish;
use vstd::arithmetic::mul::lemma_mul_inequality;

verus! {

/// The four Normal-Inverse-Gamma hyperparameters, each held in fixed point
/// (an integer count of `SCALE`-ths). `mu` locates the mean; `kappa` is the
/// pseudo-count on the mean; `alpha` and `beta` are the shape and scale of
/// the variance component. The three of `kappa`, `alpha`, `beta` are
/// strictly positive in every valid value.
#[derive(Clone, Copy, Debug, PartialEq, Eq, Structural)]
pub struct NormalInverseGamma {
    pub alpha: i64,
    pub beta: i64,
    pub mu: i64,
    pub kappa: i64,
}

impl NormalInverseGamma {
    /// Validity: the positivity demanded of the hyperparameters, together
    /// with the machine bounds that keep every update inside 128-bit
    /// intermediate arithmetic.
    pub open spec fn valid(&self) -> bool {
        &&& 0 < self.kappa <= PARAM_MAX
        &&& 0 < self.alpha <= PARAM_MAX
        &&& 0 < self.beta <= PARAM_MAX
        &&& -X_MAX <= self.mu <= X_MAX
    }
}

impl Default for NormalInverseGamma {
    /// A standard-normal-like prior: alpha = 1, beta = 1, mu = 0, kappa = 1,
    /// in fixed point.
    fn default() -> (r: NormalInverseGamma)
        ensures
            r == (NormalInverseGamma { alpha: SCALE, beta: SCALE, mu: 0, kappa: SCALE }),
            r.valid(),
    {
        NormalInverseGamma { alpha: SCALE, beta: SCALE, mu: 0, kappa: SCALE }
    }
}

/// The absolute difference between an observation and a location.
pub open spec fn spec_abs_diff(x: int, mu: int) -> int {
    if x >= mu {
        x - mu
    } else {
        mu - x
    }
}

/// Growth of a hyperparameter, saturating at `PARAM_MAX`.
pub open spec fn spec_cap(v: int) -> int {
    if v > PARAM_MAX {
        PARAM_MAX as int
    } else {
        v
    }
}

/// Posterior location in fixed point: the image of (kappa*mu + x)/(kappa + 1),
/// with the quotient truncated toward zero.
pub open spec fn spec_posterior_mu(p: NormalInverseGamma, x: int) -> int {
    let num = p.kappa * p.mu + x * SCALE;
    let den = p.kappa + SCALE;
    if num >= 0 {
        num / den
    } else {
        -((-num) / den)
    }
}

/// Posterior scale increment in fixed point: the image of
/// kappa*(x - mu)^2 / (2*(kappa + 1)), with the ratio kappa/(kappa + 1)
/// applied to one factor of the difference first so that every intermediate
/// product stays within 128 bits.
pub open spec fn spec_beta_inc(p: NormalInverseGamma, x: int) -> int {
    let d = spec_abs_diff(x, p.mu as int);
    let den = p.kappa + SCALE;
    ((p.kappa * d) / den) * d / (2 * SCALE)
}

/// The conjugate posterior of `p` after observing `x`: the standard
/// Normal-Inverse-Gamma recursion
///   mu'    = (kappa*mu + x) / (kappa + 1)
///   kappa' = kappa + 1
///   alpha' = alpha + 1/2
///   beta'  = beta + kappa*(x - mu)^2 / (2*(kappa + 1))
/// carried out in fixed point, with kappa, alpha and beta saturating at
/// `PARAM_MAX`.
pub open spec fn spec_posterior(p: NormalInverseGamma, x: int) -> NormalInverseGamma {
    NormalInverseGamma {
        alpha: spec_cap(p.alpha + HALF_SCALE) as i64,
        beta: spec_cap(p.beta + spec_beta_inc(p, x)) as i64,
        mu: spec_posterior_mu(p, x) as i64,
        kappa: spec_cap(p.kappa + SCALE) as i64,
    }
}

/// The posterior location stays within the band that held the prior
/// location and the observation.
pub proof fn lemma_posterior_mu_bounded(p: NormalInverseGamma, x: int)
    requires
        p.valid(),
        -X_MAX <= x <= X_MAX,
    ensures
        -X_MAX <= spec_posterior_mu(p, x) <= X_MAX,
{
    let num = p.kappa * p.mu + x * SCALE;
    let den = p.kappa + SCALE;
    assert(p.kappa * p.mu <= p.kappa * X_MAX) by {
        lemma_mul_inequality(p.mu as int, X_MAX as int, p.kappa as int);
        assert(p.mu * p.kappa <= X_MAX * p.kappa) by (nonlinear_arith)
            requires p.mu <= X_MAX, 0 < p.kappa, p.mu * p.kappa <= X_MAX * p.kappa;
        assert(p.kappa * p.mu == p.mu * p.kappa) by (nonlinear_arith);
        assert(p.kappa * X_MAX == X_MAX * p.kappa) by (nonlinear_arith);
    }
    assert(p.kappa * p.mu >= p.kappa * (-X_MAX)) by {
        lemma_mul_inequality(-X_MAX as int, p.mu as int, p.kappa as int);
        assert(p.kappa * p.mu == p.mu * p.kappa) by (nonlinear_arith);
        assert(p.kappa * (-X_MAX) == (-X_MAX) * p.kappa) by (nonlinear_arith);
    }
    assert(num <= den * X_MAX) by {
        assert(p.kappa * X_MAX + SCALE * X_MAX == (p.kappa + SCALE) * X_MAX) by (nonlinear_arith);
        assert(x * SCALE <= SCALE * X_MAX) by (nonlinear_arith)
            requires x <= X_MAX;
    }
    assert(-(den * X_MAX) <= num) by {
        assert(p.kappa * (-X_MAX) + SCALE * (-X_MAX) == -((p.kappa + SCALE) * X_MAX))
            by (nonlinear_arith);
        assert(x * SCALE >= SCALE * (-X_MAX)) by (nonlinear_arith)
            requires x >= -X_MAX;
    }
    if num >= 0 {
        lemma_div_is_ordered(num, den * X_MAX, den);
        lemma_div_multiples_vanish(X_MAX as int, den);
        assert(spec_posterior_mu(p, x) >= 0) by {
            lemma_div_is_ordered(0, num, den);
        }
    } else {
        lemma_div_is_ordered(-num, den * X_MAX, den);
        lemma_div_multiples_vanish(X_MAX as int, den);
        assert((-num) / den >= 0) by {
            lemma_div_is_ordered(0, -num, den);
        }
    }
}

/// The posterior scale increment is non-negative and small enough that the
/// saturating addition onto `beta` stays within `i64`.
pub proof fn lemma_beta_inc_bounded(p: NormalInverseGamma, x: int)
    requires
        p.valid(),
        -X_MAX <= x <= X_MAX,
    ensures
        0 <= spec_beta_inc(p, x) <= 2_000_000_000_000_000,
{
    let d = spec_abs_diff(x, p.mu as int);
    let den = p.kappa + SCALE;
    let q = (p.kappa * d) / den;
    assert(0 <= d <= 2 * X_MAX);
    assert(p.kappa * d >= 0) by (nonlinear_arith)
        requires p.kappa > 0, d >= 0;
    assert(q >= 0) by {
        lemma_div_is_ordered(0, p.kappa * d, den);
    }
    assert(p.kappa * d <= den * d) by (nonlinear_arith)
        requires p.kappa <= den, d >= 0;
    assert(q <= d) by {
        lemma_div_is_ordered(p.kappa * d, den * d, den);
        lemma_div_multiples_vanish(d, den);
    }
    assert(q * d >= 0) by (nonlinear_arith)
        requires q >= 0, d >= 0;
    assert(spec_beta_inc(p, x) >= 0) by {
        lemma_div_is_ordered(0, q * d, 2 * SCALE);
    }
    assert(q * d <= 4_000_000_000_000_000_000_000_000) by {
        vstd::arithmetic::mul::lemma_mul_upper_bound(q, 2 * X_MAX, d, 2 * X_MAX);
        assert((2 * X_MAX) * (2 * X_MAX) == 4_000_000_000_000_000_000_000_000) by (nonlinear_arith);
    }
    assert(spec_beta_inc(p, x) <= 2_000_000_000_000_000) by {
        lemma_div_is_ordered(q * d, 4_000_000_000_000_000_000_000_000, 2 * SCALE);
        lemma_div_multiples_vanish(2_000_000_000_000_000, 2 * SCALE);
        assert((2 * SCALE) * 2_000_000_000_000_000 == 4_000_000_000_000_000_000_000_000)
            by (nonlinear_arith);
    }
}

impl NormalInverseGamma {
    /// The conjugate update: the sole mutator of per-hypothesis parameters.
    /// Never fails for any in-range observation.
    pub fn posterior(&self, x: i64) -> (r: NormalInverseGamma)
        requires
            self.valid(),
            -X_MAX <= x <= X_MAX,
        ensures
            r == spec_posterior(*self, x as int),
            r.valid(),
    {
        proof {
            lemma_posterior_mu_bounded(*self, x as int);
            lemma_beta_inc_bounded(*self, x as int);
        }
        let kappa_new: i64 = if self.kappa > PARAM_MAX - SCALE {
            PARAM_MAX
        } else {
            self.kappa + SCALE
        };
        let alpha_new: i64 = if self.alpha > PARAM_MAX - HALF_SCALE {
            PARAM_MAX
        } else {
            self.alpha + HALF_SCALE
        };
        let den: i64 = self.kappa + SCALE;
        proof {
            assert(-4_000_000_000_000_000_000_000_000_000_000 <= (self.kappa as int) * (
            self.mu as int) <= 4_000_000_000_000_000_000_000_000_000_000) by (nonlinear_arith)
                requires
                    0 < self.kappa <= 4_000_000_000_000_000_000,
                    -1_000_000_000_000 <= self.mu <= 1_000_000_000_000,
            ;
        }
        let num: i128 = (self.kappa as i128) * (self.mu as i128) + (x as i128) * (SCALE as i128);
        let mu_new: i64 = if num >= 0 {
            let q: u128 = (num as u128) / (den as u128);
            q as i64
        } else {
            let q: u128 = ((-num) as u128) / (den as u128);
            -(q as i64)
        };
        let d_abs: i64 = if x >= self.mu {
            x - self.mu
        } else {
            self.mu - x
        };
        proof {
            assert((self.kappa as int) * (d_abs as int) <= 8_000_000_000_000_000_000_000_000_000_000)
                by (nonlinear_arith)
                requires
                    0 < self.kappa <= 4_000_000_000_000_000_000,
                    0 <= d_abs <= 2_000_000_000_000,
            ;
        }
        let qd: u128 = ((self.kappa as u128) * (d_abs as u128)) / (den as u128);
        proof {
            assert(qd <= spec_abs_diff(x as int, self.mu as int)) by {
                assert(p_times(self.kappa as int, d_abs as int) <= p_times(den as int, d_abs as int))
                    by (nonlinear_arith)
                    requires 0 < self.kappa <= den, d_abs >= 0;
                lemma_div_is_ordered(
                    p_times(self.kappa as int, d_abs as int),
                    p_times(den as int, d_abs as int),
                    den as int,
                );
                lemma_div_multiples_vanish(d_abs as int, den as int);
            }
        }
        let inc_u: u128 = (qd * (d_abs as u128)) / ((2 * SCALE) as u128);
        proof {
            assert(inc_u == spec_beta_inc(*self, x as int));
        }
        let inc: i64 = inc_u as i64;
        let beta_new: i64 = if self.beta > PARAM_MAX - inc {
            PARAM_MAX
        } else {
            self.beta + inc
        };
        NormalInverseGamma { alpha: alpha_new, beta: beta_new, mu: mu_new, kappa: kappa_new }
    }
}

/// Multiplication written as a named spec function, to steady the triggers
/// of the nonlinear facts above.
pub open spec fn p_times(a: int, b: int) -> int {
    a * b
}

} // verus!
