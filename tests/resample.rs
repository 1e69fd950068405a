use airjedi::{check_sample_rate, resampling_plan, SampleRateError};

#[test]
fn sample_rate_below_two_megahertz_refused() {
    assert_eq!(check_sample_rate(1_999_999), Err(SampleRateError::TooLow));
    assert_eq!(check_sample_rate(2_000_000), Ok(2_000_000));
    assert_eq!(SampleRateError::TooLow.message(), "Sample rate must be at least 2 MHz");
    assert_eq!(
        SampleRateError::Invalid("abc".to_string()).message(),
        "`abc` is not a valid sample rate"
    );
}

#[test]
fn resampling_factors_in_lowest_terms() {
    let plan = resampling_plan(2_200_000);
    assert_eq!((plan.interpolation, plan.decimation), (20, 11));
    assert!(!plan.large_factors);
    let plan = resampling_plan(2_000_000);
    assert_eq!((plan.interpolation, plan.decimation), (2, 1));
}

#[test]
fn large_factors_only_warn() {
    let plan = resampling_plan(2_048_000);
    assert_eq!((plan.interpolation, plan.decimation), (125, 64));
    assert!(plan.large_factors);
}
