use change_point_algorithms::normal::Normal;
use change_point_algorithms::normal_params::NormalParams;
use change_point_algorithms::SCALE;

// All real-valued parameters are carried in fixed point: the real value v is
// the integer v * SCALE.

#[test]
fn test_normal_params_new_success() {
    let normal = Normal::new(0, SCALE).unwrap();
    let params = NormalParams::new(normal, SCALE / 2).unwrap();
    assert_eq!(params.dist.mean(), 0);
    assert_eq!(params.dist.stddev(), SCALE);
    assert_eq!(params.prob.value(), SCALE / 2);
}

#[test]
fn test_normal_params_new_success_negative_mean() {
    let normal = Normal::new(-SCALE, SCALE).unwrap();
    let params = NormalParams::new(normal, SCALE / 2);
    assert!(params.is_ok());
    let params = params.unwrap();
    assert_eq!(params.dist.mean(), -SCALE);
    assert_eq!(params.dist.stddev(), SCALE);
    assert_eq!(params.prob.value(), SCALE / 2);
}

#[test]
fn test_normal_params_from_tuple_success() {
    let params = NormalParams::from_tuple((0, SCALE, SCALE / 2)).unwrap();
    assert_eq!(params.dist.mean(), 0);
    assert_eq!(params.dist.stddev(), SCALE);
    assert_eq!(params.prob.value(), SCALE / 2);
}

fn get_params() -> NormalParams {
    NormalParams::from_tuple((0, SCALE, SCALE / 2)).unwrap()
}

#[test]
fn test_update_params_success() {
    let mut params = get_params();
    params.update_params(2 * SCALE, 3 * SCALE, 7 * SCALE / 10).unwrap();
    assert_eq!(params.dist.mean(), 2 * SCALE);
    assert_eq!(params.dist.stddev(), 3 * SCALE);
    assert_eq!(params.prob.value(), 7 * SCALE / 10);
}

#[test]
fn test_update_params_failure_all_bad() {
    // An out-of-band mean plays the role a non-finite mean plays in
    // floating point: it is rejected before anything is written.
    let mut params = get_params();
    let res = params.update_params(i64::MAX, -2 * SCALE, 58 * SCALE / 10);
    assert!(res.is_err());
    assert_eq!(params.dist.mean(), 0);
    assert_eq!(params.dist.stddev(), SCALE);
    assert_eq!(params.prob.value(), SCALE / 2);
}

#[test]
fn test_update_params_bad_prob_keeps_probability() {
    // A valid Gaussian followed by an invalid probability: the staged
    // update installs the Gaussian and keeps the old probability.
    let mut params = get_params();
    let res = params.update_params(2 * SCALE, 3 * SCALE, 2 * SCALE);
    assert!(res.is_err());
    assert_eq!(params.dist.mean(), 2 * SCALE);
    assert_eq!(params.dist.stddev(), 3 * SCALE);
    assert_eq!(params.prob.value(), SCALE / 2);
}

#[test]
fn test_likelihood_weights_density() {
    // prob = 0.5, density = 0.25 -> weighted likelihood 0.125.
    let params = get_params();
    let phi = SCALE as u64 / 4;
    assert_eq!(params.likelihood(phi), SCALE as u64 / 8);
}

#[test]
fn test_probs_inplace_maps_each_density() {
    let params = get_params();
    let phis = vec![0u64, SCALE as u64 / 4, SCALE as u64];
    let mut out: Vec<u64> = vec![9, 9, 9];
    params.probs_inplace(&phis, &mut out);
    assert_eq!(out, vec![0, SCALE as u64 / 8, SCALE as u64 / 2]);
}

#[test]
fn test_probs_inplace_stops_at_shorter() {
    let params = get_params();
    // Fewer densities than output entries: the tail is left untouched.
    let phis = vec![SCALE as u64];
    let mut out: Vec<u64> = vec![7, 8, 9];
    params.probs_inplace(&phis, &mut out);
    assert_eq!(out, vec![SCALE as u64 / 2, 8, 9]);
    // Fewer output entries than densities: the output keeps its length.
    let phis = vec![SCALE as u64, SCALE as u64, SCALE as u64];
    let mut out: Vec<u64> = vec![1];
    params.probs_inplace(&phis, &mut out);
    assert_eq!(out, vec![SCALE as u64 / 2]);
}
