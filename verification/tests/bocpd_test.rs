use change_point_algorithms::engine::BocpdEngine;
use change_point_algorithms::engine::UpdateError;
use change_point_algorithms::engine::hazard;
use change_point_algorithms::normal_inverse_gamma::NormalInverseGamma;
use change_point_algorithms::LIKE_MAX;
use change_point_algorithms::SCALE;
use change_point_algorithms::PARAM_MAX;
use change_point_algorithms::X_MAX;

const FIXED: f64 = 1_000_000_000.0;

/// Log of the gamma function (Lanczos approximation), for the Student-t
/// normalization constant.
fn lgamma(x: f64) -> f64 {
    const COEF: [f64; 9] = [
        0.99999999999980993,
        676.5203681218851,
        -1259.1392167224028,
        771.32342877765313,
        -176.61502916214059,
        12.507343278686905,
        -0.13857109526572012,
        9.9843695780195716e-6,
        1.5056327351493116e-7,
    ];
    if x < 0.5 {
        let pi = std::f64::consts::PI;
        pi.ln() - (pi * x).sin().ln() - lgamma(1.0 - x)
    } else {
        let x = x - 1.0;
        let mut a = COEF[0];
        let t = x + 7.5;
        for (i, c) in COEF.iter().enumerate().skip(1) {
            a += c / (x + i as f64);
        }
        0.5 * (2.0 * std::f64::consts::PI).ln() + (x + 0.5) * t.ln() - t + a.ln()
    }
}

/// The posterior predictive density of one observation under a hypothesis's
/// Normal-Inverse-Gamma parameters: a Student-t with location mu, degrees of
/// freedom 2*alpha, and squared scale beta*(kappa+1)/(alpha*kappa), computed
/// in log space and exponentiated at the end.
fn predictive_density(p: &NormalInverseGamma, x: f64) -> u64 {
    let alpha = p.alpha as f64 / FIXED;
    let beta = p.beta as f64 / FIXED;
    let mu = p.mu as f64 / FIXED;
    let kappa = p.kappa as f64 / FIXED;
    let nu = 2.0 * alpha;
    let sigma2 = beta * (kappa + 1.0) / (alpha * kappa);
    let z2 = (x - mu) * (x - mu) / sigma2;
    let log_pdf = lgamma((nu + 1.0) / 2.0) - lgamma(nu / 2.0)
        - 0.5 * (nu * std::f64::consts::PI * sigma2).ln()
        - (nu + 1.0) / 2.0 * (1.0 + z2 / nu).ln();
    let scaled = (log_pdf.exp() * FIXED).round();
    if scaled.is_finite() && scaled > 0.0 {
        (scaled as u64).min(LIKE_MAX)
    } else {
        0
    }
}

/// Predictive likelihood of `x` under every live hypothesis.
fn likes_for(model: &BocpdEngine, x: f64) -> Vec<u64> {
    let mut likes = Vec::new();
    for i in 0..model.params_length() {
        let p = model.hypothesis_params(i).unwrap();
        likes.push(predictive_density(&p, x));
    }
    likes
}

fn to_fixed(x: f64) -> i64 {
    let v = (x * FIXED).round() as i64;
    v.clamp(-X_MAX, X_MAX)
}

fn update_model(model: &mut BocpdEngine, x: f64, lambda: f64) -> Result<(), UpdateError> {
    let likes = likes_for(model, x);
    model.update(to_fixed(x), to_fixed(lambda), &likes)
}

fn predict_model(model: &BocpdEngine, x: f64) -> f64 {
    let likes = likes_for(model, x);
    model.predict(&likes) as f64 / FIXED
}

/// Deterministic pseudo-normal stream: a linear congruential generator fed
/// through the Box-Muller transform.
struct NormalStream {
    state: u64,
    mean: f64,
    std_dev: f64,
}

impl NormalStream {
    fn new(seed: u64, mean: f64, std_dev: f64) -> NormalStream {
        NormalStream { state: seed, mean, std_dev }
    }

    fn next_uniform(&mut self) -> f64 {
        self.state = self
            .state
            .wrapping_mul(6364136223846793005)
            .wrapping_add(1442695040888963407);
        ((self.state >> 11) as f64 + 1.0) / (1u64 << 53) as f64
    }

    fn next(&mut self) -> f64 {
        let u1 = self.next_uniform();
        let u2 = self.next_uniform();
        let z = (-2.0 * u1.ln()).sqrt() * (2.0 * std::f64::consts::PI * u2).cos();
        self.mean + self.std_dev * z
    }

    fn take_vec(&mut self, n: usize) -> Vec<f64> {
        (0..n).map(|_| self.next()).collect()
    }
}

#[test]
fn test_bocpd_model_all_normal() {
    let mut stream = NormalStream::new(42, 0.0, 1.0);
    let data = stream.take_vec(100);
    let lambda = 2.0;
    let mut model = BocpdEngine::default();
    let mut count_safe = 0;
    let mut count_unsafe = 0;
    for &item in &data {
        update_model(&mut model, item, lambda).expect("The model should not fail to update.");
        let prediction = predict_model(&model, item);
        if prediction > 0.05 {
            count_safe += 1;
        } else {
            count_unsafe += 1;
        }
    }
    assert!(count_safe > count_unsafe);
}

#[test]
fn test_bocpd_all_normal() {
    let mut stream = NormalStream::new(7, 0.0, 1.0);
    let data = stream.take_vec(1000);
    let lamb = 0.5;
    let mut model = BocpdEngine::default();
    let mut count_safe = 0;
    let mut count_unsafe = 0;
    for event in data {
        update_model(&mut model, event, lamb).expect("Should not fail to update model");
        let prediction = predict_model(&model, event);
        if prediction > 0.05 {
            count_safe += 1;
        } else {
            count_unsafe += 1;
        }
    }
    assert!(
        count_safe >= count_unsafe,
        "count_safe: {}, count_unsafe: {}",
        count_safe,
        count_unsafe
    );
}

#[test]
fn test_bocpd_all_abnormal() {
    // A stream far from the prior mean: with an expected run length below
    // one the hazard caps at one, so the mass keeps resetting to the fresh
    // prior, which never explains the shifted data.
    let mut stream = NormalStream::new(11, 50.0, 1.0);
    let data = stream.take_vec(1000);
    let lamb = 0.5;
    let mut model = BocpdEngine::default();
    let mut count_safe = 0;
    let mut count_unsafe = 0;
    for event in data {
        update_model(&mut model, event, lamb).expect("Should not fail to update model");
        let prediction = predict_model(&model, event);
        if prediction > 0.05 {
            count_safe += 1;
        } else {
            count_unsafe += 1;
        }
    }
    assert!(
        count_unsafe >= count_safe,
        "count_safe: {}, count_unsafe: {}",
        count_safe,
        count_unsafe
    );
}

#[test]
fn test_weight_conservation_exact() {
    let mut stream = NormalStream::new(3, 0.0, 1.0);
    let data = stream.take_vec(200);
    let mut model = BocpdEngine::default();
    for &x in &data {
        update_model(&mut model, x, 4.0).unwrap();
        let total: u128 = model.weights().iter().map(|&w| w as u128).sum();
        assert_eq!(total, SCALE as u128);
    }
}

#[test]
fn test_growth_without_pruning() {
    let mut stream = NormalStream::new(5, 0.0, 1.0);
    let mut model = BocpdEngine::default();
    assert_eq!(model.params_length(), 1);
    for n in 1..=50 {
        update_model(&mut model, stream.next(), 2.0).unwrap();
        assert_eq!(model.params_length(), n + 1);
    }
}

#[test]
fn test_bounded_growth_with_pruning() {
    let mut stream = NormalStream::new(9, 0.0, 1.0);
    // A fixed negligible-weight threshold of one thousandth.
    let mut model = BocpdEngine::new(SCALE, SCALE, 0, SCALE, true, Some(1_000_000)).unwrap();
    let mut max_len = 0;
    for _ in 0..10_000 {
        update_model(&mut model, stream.next(), 20.0).unwrap();
        max_len = max_len.max(model.params_length());
    }
    // The hypothesis count stays far below the stream length, bounded by
    // the decay rate that the threshold and hazard determine.
    assert!(max_len < 1200, "max params length was {}", max_len);
}

#[test]
fn test_determinism_identical_runs() {
    let mut stream = NormalStream::new(21, 0.0, 1.0);
    let data = stream.take_vec(100);
    let mut a = BocpdEngine::new(SCALE, SCALE, 0, SCALE, true, Some(1000)).unwrap();
    let mut b = BocpdEngine::new(SCALE, SCALE, 0, SCALE, true, Some(1000)).unwrap();
    for &x in &data {
        update_model(&mut a, x, 5.0).unwrap();
        update_model(&mut b, x, 5.0).unwrap();
        assert_eq!(a.weights(), b.weights());
        assert_eq!(predict_model(&a, x).to_bits(), predict_model(&b, x).to_bits());
    }
}

#[test]
fn test_rejection_without_mutation() {
    let mut model = BocpdEngine::default();
    update_model(&mut model, 0.5, 2.0).unwrap();
    let before_len = model.params_length();
    let before_weights = model.weights();
    let likes = likes_for(&model, 0.5);
    assert_eq!(model.update(to_fixed(0.5), 0, &likes), Err(UpdateError::InvalidHazard));
    assert_eq!(model.update(to_fixed(0.5), -3, &likes), Err(UpdateError::InvalidHazard));
    assert_eq!(model.params_length(), before_len);
    assert_eq!(model.weights(), before_weights);
    // Rejection precedes every read of the likelihoods, so even a vector of
    // the wrong length leaves the engine untouched.
    let empty: Vec<u64> = Vec::new();
    assert_eq!(model.update(0, -1, &empty), Err(UpdateError::InvalidHazard));
    assert_eq!(model.weights(), before_weights);
}

#[test]
fn test_degenerate_stream_is_rejected_unchanged() {
    let mut model = BocpdEngine::default();
    let zero_likes = vec![0u64; model.params_length()];
    let before_weights = model.weights();
    let r = model.update(0, 2 * SCALE, &zero_likes);
    assert_eq!(r, Err(UpdateError::NumericalDegeneracy));
    assert_eq!(model.weights(), before_weights);
    assert_eq!(model.params_length(), 1);
}

#[test]
fn test_invalid_prior_is_rejected() {
    assert!(BocpdEngine::new(0, SCALE, 0, SCALE, false, None).is_err());
    assert!(BocpdEngine::new(SCALE, -1, 0, SCALE, false, None).is_err());
    assert!(BocpdEngine::new(SCALE, SCALE, 0, 0, false, None).is_err());
    assert!(BocpdEngine::new(SCALE, SCALE, 0, SCALE, false, None).is_ok());
}

#[test]
fn test_hazard_values() {
    // lambda = 2 -> hazard 1/2; lambda = 20 -> hazard 1/20.
    assert_eq!(hazard(2 * SCALE), Ok(SCALE as u64 / 2));
    assert_eq!(hazard(20 * SCALE), Ok(SCALE as u64 / 20));
    // lambda below one is capped at a hazard of one.
    assert_eq!(hazard(SCALE / 2), Ok(SCALE as u64));
    assert_eq!(hazard(0), Err(UpdateError::InvalidHazard));
    assert_eq!(hazard(-SCALE), Err(UpdateError::InvalidHazard));
}

#[test]
fn test_predict_before_any_update() {
    // Before any update the score is the one implied by the single prior
    // hypothesis with weight one: the Student-t density at the point.
    let model = BocpdEngine::default();
    assert_eq!(model.params_length(), 1);
    let p = model.hypothesis_params(0).unwrap();
    let expected = predictive_density(&p, 0.3);
    let likes = vec![expected];
    let got = model.predict(&likes);
    // weight is exactly one, so the score is the density itself.
    assert_eq!(got, expected);
}

#[test]
fn test_hypothesis_params_out_of_range() {
    let model = BocpdEngine::default();
    assert!(model.hypothesis_params(0).is_some());
    assert!(model.hypothesis_params(1).is_none());
}

#[test]
fn test_conjugate_update_saturates_at_cap() {
    let p = NormalInverseGamma { alpha: PARAM_MAX, beta: PARAM_MAX, mu: 0, kappa: PARAM_MAX };
    let q = p.posterior(SCALE);
    assert_eq!(q.alpha, PARAM_MAX);
    assert_eq!(q.beta, PARAM_MAX);
    assert_eq!(q.kappa, PARAM_MAX);
}

#[test]
fn test_conjugate_update_formulas() {
    // From the default prior (mu 0, kappa 1, alpha 1, beta 1), observing
    // x = 2: mu' = 1, kappa' = 2, alpha' = 1.5, beta' = 2.
    let p = NormalInverseGamma::default();
    let q = p.posterior(2 * SCALE);
    assert_eq!(q.mu, SCALE);
    assert_eq!(q.kappa, 2 * SCALE);
    assert_eq!(q.alpha, 3 * SCALE / 2);
    assert_eq!(q.beta, 2 * SCALE);
}
