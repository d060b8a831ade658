// The availability table: which statistic is available at which count,
// and when a ratio statistic is undefined instead.

use incr_stats::avail::basic_available;
use incr_stats::avail::population_kurtosis_available;
use incr_stats::avail::population_skewness_available;
use incr_stats::avail::sample_kurtosis_available;
use incr_stats::avail::sample_skewness_available;
use incr_stats::avail::variance_available;
use incr_stats::error::StatsError;

#[test]
fn test_thresholds_count_0() {
    assert_eq!(basic_available(0), Err(StatsError::NotEnoughData));
    assert_eq!(variance_available(0), Err(StatsError::NotEnoughData));
    assert_eq!(
        population_skewness_available(0, false),
        Err(StatsError::NotEnoughData)
    );
    assert_eq!(
        sample_skewness_available(0, false),
        Err(StatsError::NotEnoughData)
    );
    assert_eq!(
        population_kurtosis_available(0, false),
        Err(StatsError::NotEnoughData)
    );
    assert_eq!(
        sample_kurtosis_available(0, false),
        Err(StatsError::NotEnoughData)
    );
}

#[test]
fn test_thresholds_count_1() {
    assert_eq!(basic_available(1), Ok(()));
    assert_eq!(variance_available(1), Err(StatsError::NotEnoughData));
    assert_eq!(
        population_skewness_available(1, false),
        Err(StatsError::NotEnoughData)
    );
    assert_eq!(
        sample_skewness_available(1, false),
        Err(StatsError::NotEnoughData)
    );
    assert_eq!(
        population_kurtosis_available(1, false),
        Err(StatsError::NotEnoughData)
    );
    assert_eq!(
        sample_kurtosis_available(1, false),
        Err(StatsError::NotEnoughData)
    );
}

#[test]
fn test_thresholds_count_2() {
    assert_eq!(basic_available(2), Ok(()));
    assert_eq!(variance_available(2), Ok(()));
    assert_eq!(population_skewness_available(2, false), Ok(()));
    assert_eq!(
        sample_skewness_available(2, false),
        Err(StatsError::NotEnoughData)
    );
    assert_eq!(population_kurtosis_available(2, false), Ok(()));
    assert_eq!(
        sample_kurtosis_available(2, false),
        Err(StatsError::NotEnoughData)
    );
}

#[test]
fn test_thresholds_count_3() {
    assert_eq!(variance_available(3), Ok(()));
    assert_eq!(population_skewness_available(3, false), Ok(()));
    assert_eq!(sample_skewness_available(3, false), Ok(()));
    assert_eq!(population_kurtosis_available(3, false), Ok(()));
    assert_eq!(
        sample_kurtosis_available(3, false),
        Err(StatsError::NotEnoughData)
    );
}

#[test]
fn test_thresholds_count_4() {
    assert_eq!(variance_available(4), Ok(()));
    assert_eq!(population_skewness_available(4, false), Ok(()));
    assert_eq!(sample_skewness_available(4, false), Ok(()));
    assert_eq!(population_kurtosis_available(4, false), Ok(()));
    assert_eq!(sample_kurtosis_available(4, false), Ok(()));
}

#[test]
fn test_zero_second_moment_is_undefined() {
    // Constant data: the ratio statistics report Undefined, never a
    // value and never NotEnoughData once the count threshold is met.
    for count in 2..=10u32 {
        assert_eq!(
            population_skewness_available(count, true),
            Err(StatsError::Undefined)
        );
        assert_eq!(
            population_kurtosis_available(count, true),
            Err(StatsError::Undefined)
        );
    }
    for count in 3..=10u32 {
        assert_eq!(
            sample_skewness_available(count, true),
            Err(StatsError::Undefined)
        );
    }
    for count in 4..=10u32 {
        assert_eq!(
            sample_kurtosis_available(count, true),
            Err(StatsError::Undefined)
        );
    }
    // Below the threshold the count rules first.
    assert_eq!(
        population_skewness_available(1, true),
        Err(StatsError::NotEnoughData)
    );
    assert_eq!(
        sample_skewness_available(2, true),
        Err(StatsError::NotEnoughData)
    );
    assert_eq!(
        sample_kurtosis_available(3, true),
        Err(StatsError::NotEnoughData)
    );
}

#[test]
fn test_error_messages() {
    assert_eq!(StatsError::NotEnoughData.message(), "not enough data");
    assert_eq!(
        StatsError::Undefined.message(),
        "data produces undefined values"
    );
    assert_eq!(StatsError::InvalidData.message(), "data contains NaNs or Infs");
}
