use scroll_filter::app_config::AppConfig;
use scroll_filter::filter::{ConfigError, FilterConfig, ScrollSample};
use scroll_filter::smoothing::{abs_i64, alpha_from_elapsed, blend, exp_neg_fixed, sign_i64};

#[test]
fn config_accepts_valid_thresholds() {
    let c = match FilterConfig::new(4000, 2000, 80) {
        Ok(c) => c,
        Err(_) => panic!("valid configuration rejected"),
    };
    assert_eq!(c.min_delta_size, 4000);
    assert_eq!(c.min_smoothed_delta_size, 2000);
    assert_eq!(c.time_constant_ms, 80);
}

#[test]
fn config_rejects_zero_time_constant() {
    assert_eq!(
        FilterConfig::new(4000, 2000, 0),
        Err(ConfigError::TimeConstantOutOfRange)
    );
}

#[test]
fn config_rejects_oversized_time_constant() {
    assert_eq!(
        FilterConfig::new(4000, 2000, 2000000000),
        Err(ConfigError::TimeConstantOutOfRange)
    );
}

#[test]
fn config_rejects_smoothed_threshold_above_raw() {
    assert_eq!(
        FilterConfig::new(4000, 5000, 80),
        Err(ConfigError::SmoothedThresholdExceedsRaw)
    );
}

#[test]
fn smoothing_weight_zero_elapsed_is_zero() {
    assert_eq!(alpha_from_elapsed(0, 80), 0);
}

#[test]
fn smoothing_weight_matches_series_value() {
    // 1 - exp(-50/80) = 0.46474 in millionths, computed by the fixed-point
    // series.
    assert_eq!(alpha_from_elapsed(50, 80), 464705);
}

#[test]
fn smoothing_weight_saturates_after_fourteen_time_constants() {
    assert_eq!(alpha_from_elapsed(1120, 80), 1000000);
    assert_eq!(alpha_from_elapsed(u64::MAX, 80), 1000000);
}

#[test]
fn decaying_exponential_fixed_points() {
    assert_eq!(exp_neg_fixed(0), 1000000);
    // exp(-0.625) = 0.535261; the series gives 0.535295.
    assert_eq!(exp_neg_fixed(625000), 535295);
    assert_eq!(exp_neg_fixed(14000000), 0);
}

#[test]
fn blend_rounds_toward_negative_infinity() {
    assert_eq!(blend(3000, 100, 464705), 1447);
    assert_eq!(blend(-3000, -100, 464705), -1448);
    assert_eq!(blend(5, 5, 1000000), 5);
    assert_eq!(blend(7, 3, 0), 3);
}

#[test]
fn sign_and_magnitude() {
    assert_eq!(sign_i64(-5), -1);
    assert_eq!(sign_i64(0), 0);
    assert_eq!(sign_i64(9), 1);
    assert_eq!(abs_i64(-7), 7);
    assert_eq!(abs_i64(7), 7);
    assert_eq!(abs_i64(0), 0);
}

#[test]
fn scroll_sample_default_is_sentinel() {
    let s = ScrollSample::default();
    assert_eq!(s.delta_x, 0);
    assert_eq!(s.delta_y, 0);
    assert_eq!(s.timestamp, 0);
}

#[test]
fn app_config_default_does_not_log_to_file() {
    let c = AppConfig::default();
    assert!(!c.log_to_file);
}
