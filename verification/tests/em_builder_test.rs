use change_point_algorithms::em_model_builder::EmBuilderOne;
use change_point_algorithms::em_model_builder::EmBuilderTwo;
use change_point_algorithms::em_model_builder::EmBuilderLast;
use change_point_algorithms::em_model_builder::FieldStatus;
use change_point_algorithms::em_model::EarlyStopEmModel;
use change_point_algorithms::normal::Normal;
use change_point_algorithms::normal_params::NormalParams;
use change_point_algorithms::pos_int::PositiveInteger;
use change_point_algorithms::SCALE;
use change_point_algorithms::X_MAX;

// All real-valued parameters are carried in fixed point: the real value v is
// the integer v * SCALE. A value beyond X_MAX plays the role of a non-finite
// floating-point input.

// EmBuilderOne tests

#[test]
fn test_em_builder_one_build_normal() {
    let mut em = EmBuilderOne::new();
    let result = em.build_normal(-2 * SCALE, 10 * SCALE, SCALE / 2);
    assert!(result.is_ok());
}

#[test]
fn test_em_builder_one_build_normal_fails_bad_mean() {
    let mut em = EmBuilderOne::new();
    let result = em.build_normal(X_MAX + 1, 2 * SCALE, SCALE / 2);
    assert!(result.is_err());
}

#[test]
fn test_em_builder_one_build_normal_fails_bad_std_dev() {
    let mut em = EmBuilderOne::new();
    let result = em.build_normal(0, -2 * SCALE, SCALE / 2);
    assert!(result.is_err());
}

#[test]
fn test_em_builder_one_build_normal_fails_bad_prob() {
    let mut em = EmBuilderOne::new();
    let result = em.build_normal(0, 2 * SCALE, 15 * SCALE / 10);
    assert!(result.is_err());
}

#[test]
fn test_em_builder_one_build_abnormal() {
    let mut em = EmBuilderOne::new();
    assert!(em.abnormals.is_empty());
    let values = vec![
        NormalParams::new(Normal::new(0, SCALE).unwrap(), SCALE / 2).unwrap(),
        NormalParams::new(Normal::new(SCALE, 2 * SCALE).unwrap(), SCALE / 2).unwrap(),
    ];
    em.build_abnormal(&values);
    assert_eq!(em.abnormals.get(0), Some(&values[0]));
    assert_eq!(em.abnormals.get(1), Some(&values[1]));
}

#[test]
fn test_em_builder_one_build_abnormal_from_tuples() {
    let mut em = EmBuilderOne::new();
    assert!(em.abnormals.is_empty());
    let values = vec![(0, SCALE, SCALE / 2), (SCALE, 2 * SCALE, SCALE / 2)];
    let result = em.build_abnormal_from_tuples(&values);
    assert!(result.is_ok());
    assert_eq!(em.abnormals.get(0), Some(&NormalParams::from_tuple(values[0]).unwrap()));
    assert_eq!(em.abnormals.get(1), Some(&NormalParams::from_tuple(values[1]).unwrap()));
}

#[test]
fn test_em_builder_one_build_epochs() {
    let mut em = EmBuilderOne::new();
    let result = em.build_epochs(10);
    assert!(result.is_ok());
    assert_eq!(em.epochs, PositiveInteger::new(10).unwrap());
    // Failing case
    let result = em.build_epochs(0);
    assert!(result.is_err());
}

#[test]
fn test_build_samples_from_slice() {
    let mut em = EmBuilderOne::new();
    let samples = vec![0, 2 * SCALE, -SCALE];
    em.build_samples_from_slice(&samples);
    let FieldStatus::Complete(new_samples) = em.sample_arr else {
        panic!("Sample array not initialized")
    };
    assert_eq!(new_samples.to_vec(), vec![0, 2 * SCALE, -SCALE, 0]);
}

#[test]
fn test_em_builder_one_next_builder() {
    let mut em = EmBuilderOne::new();
    let result = em.next_builder();
    assert!(result.is_err());
    let samples = vec![0, 2 * SCALE, -SCALE];
    em.build_samples_from_slice(&samples);
    let result = em.next_builder();
    assert!(result.is_ok());
    let new_samples = result.unwrap().sample_arr;
    assert_eq!(new_samples.to_vec(), vec![0, 2 * SCALE, -SCALE, 0]);
}

// EmBuilderTwo tests

fn make_em_builder_two() -> EmBuilderTwo {
    let mut em = EmBuilderOne::new();
    let samples = vec![0, 2 * SCALE, -SCALE];
    em.build_samples_from_slice(&samples);
    let result = em.next_builder();
    assert!(result.is_ok());
    result.unwrap()
}

#[test]
fn test_em_builder_two_build_likelihoods() {
    let mut em = make_em_builder_two();
    em.build_likelihoods();
    let FieldStatus::Complete(new_likelihoods) = em.likelihoods_arr else {
        panic!("Likelihoods array not initialized")
    };
    assert_eq!(new_likelihoods.nrows(), 1);
    assert_eq!(new_likelihoods.ncols(), 4);
    assert_eq!(new_likelihoods.to_rows(), vec![vec![0i64; 4]]);
}

#[test]
fn test_em_builder_two_next_builder() {
    let mut em = make_em_builder_two();
    let result = em.next_builder();
    assert!(result.is_err());
    if let Err(e) = result {
        println!("{:?}", e);
    }
    em.build_likelihoods();
    let result = em.next_builder();
    assert!(result.is_ok());
    let new_likelihoods = result.unwrap().likelihoods_arr;
    assert_eq!(new_likelihoods.nrows(), 1);
    assert_eq!(new_likelihoods.ncols(), 4);
}

// EmBuilderLast tests

fn make_em_builder_last() -> EmBuilderLast {
    let mut em = EmBuilderOne::new();
    let samples = vec![0, 2 * SCALE, -SCALE];
    em.build_samples_from_slice(&samples);
    let result = em.next_builder();
    assert!(result.is_ok());
    let mut two = result.unwrap();
    two.build_likelihoods();
    two.next_builder().unwrap()
}

#[test]
fn test_get_standard_model() {
    let em = make_em_builder_last();
    let standard_model = em.get_standard_model();
    assert_eq!(standard_model.normal, em.normal);
    assert_eq!(standard_model.abnormals, em.abnormals);
    assert_eq!(standard_model.samples.to_vec(), em.sample_arr.to_vec());
    assert_eq!(standard_model.likelihoods.to_rows(), em.likelihoods_arr.to_rows());
    assert_eq!(standard_model.epochs, em.epochs);
}

#[test]
fn test_get_early_stop_model() {
    let mut em = make_em_builder_last();
    em.build_likelihood_converge_checker();
    let early_stop_model = em.get_early_stop_model();
    let EarlyStopEmModel { em_model, converge_checker } = early_stop_model;
    assert_eq!(em_model.normal, em.normal);
    assert_eq!(em_model.abnormals, em.abnormals);
    assert_eq!(em_model.samples.to_vec(), em.sample_arr.to_vec());
    assert_eq!(em_model.likelihoods.to_rows(), em.likelihoods_arr.to_rows());
    assert_eq!(em_model.epochs, em.epochs);
    assert_eq!(converge_checker.prev_likelihood.nrows(), em.likelihoods_arr.nrows());
    assert_eq!(converge_checker.prev_likelihood.ncols(), em.likelihoods_arr.ncols());
}

#[test]
fn test_build_normal_bad_prob_installs_gaussian_keeps_prob() {
    let mut em = EmBuilderOne::new();
    let result = em.build_normal(2 * SCALE, 3 * SCALE, 2 * SCALE);
    assert!(result.is_err());
    assert_eq!(em.normal.dist.mean(), 2 * SCALE);
    assert_eq!(em.normal.dist.stddev(), 3 * SCALE);
    assert_eq!(em.normal.prob.value(), SCALE);
}

#[test]
fn test_abnormal_from_tuples_keeps_valid_prefix() {
    let mut em = EmBuilderOne::new();
    let values = vec![(0, SCALE, SCALE / 2), (0, -SCALE, SCALE / 2), (SCALE, SCALE, SCALE / 4)];
    let result = em.build_abnormal_from_tuples(&values);
    assert!(result.is_err());
    assert_eq!(em.abnormals.len(), 1);
}
