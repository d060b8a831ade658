use vstd::prelude::*;
use crate::error::StatsError;

verus! {

// The availability rules shared by the incremental, batch and cached
// engines.  Each statistic needs a minimum number of observations, and a
// ratio statistic (skewness, kurtosis) is additionally undefined when the
// second central moment is exactly zero (constant data).  `count` is the
// number of observations; `zero_second_moment` reports whether the
// engine's second central moment sum came out exactly zero.
//
// The whole table: minimum, maximum, sum and mean need one observation;
// variance and standard deviation need two; population skewness and
// kurtosis need two and a non-zero second moment; sample skewness needs
// three and sample kurtosis four, each with a non-zero second moment.

/// The rule for minimum, maximum, sum and mean: one observation.
pub open spec fn spec_basic_rule(count: u32) -> Result<(), StatsError> {
    if count == 0 {
        Err(StatsError::NotEnoughData)
    } else {
        Ok(())
    }
}

/// The rule for variance and standard deviation, population and sample
/// form alike: two observations.
pub open spec fn spec_variance_rule(count: u32) -> Result<(), StatsError> {
    if count <= 1 {
        Err(StatsError::NotEnoughData)
    } else {
        Ok(())
    }
}

/// The rule for a ratio statistic: `required` observations, and a
/// non-zero second central moment.  The count is checked first, so a
/// short constant sequence reports `NotEnoughData`, not `Undefined`.
pub open spec fn spec_ratio_rule(count: u32, required: u32, zero_second_moment: bool) -> Result<
    (),
    StatsError,
> {
    if count < required {
        Err(StatsError::NotEnoughData)
    } else if zero_second_moment {
        Err(StatsError::Undefined)
    } else {
        Ok(())
    }
}

/// Minimum, maximum, sum and mean need at least one observation.
pub fn basic_available(count: u32) -> (r: Result<(), StatsError>)
    ensures
        r == spec_basic_rule(count),
{
    if count == 0 {
        Err(StatsError::NotEnoughData)
    } else {
        Ok(())
    }
}

/// Variance and standard deviation, in both population and sample form,
/// need at least two observations.
pub fn variance_available(count: u32) -> (r: Result<(), StatsError>)
    ensures
        r == spec_variance_rule(count),
{
    if count <= 1 {
        Err(StatsError::NotEnoughData)
    } else {
        Ok(())
    }
}

/// Population skewness needs at least two observations and a non-zero
/// second central moment.
pub fn population_skewness_available(count: u32, zero_second_moment: bool) -> (r: Result<
    (),
    StatsError,
>)
    ensures
        r == spec_ratio_rule(count, 2, zero_second_moment),
{
    if count <= 1 {
        Err(StatsError::NotEnoughData)
    } else if zero_second_moment {
        Err(StatsError::Undefined)
    } else {
        Ok(())
    }
}

/// Sample skewness needs at least three observations and a non-zero
/// second central moment.
pub fn sample_skewness_available(count: u32, zero_second_moment: bool) -> (r: Result<
    (),
    StatsError,
>)
    ensures
        r == spec_ratio_rule(count, 3, zero_second_moment),
{
    if count <= 2 {
        Err(StatsError::NotEnoughData)
    } else if zero_second_moment {
        Err(StatsError::Undefined)
    } else {
        Ok(())
    }
}

/// Population excess kurtosis needs at least two observations and a
/// non-zero second central moment, the same rule as population skewness.
pub fn population_kurtosis_available(count: u32, zero_second_moment: bool) -> (r: Result<
    (),
    StatsError,
>)
    ensures
        r == spec_ratio_rule(count, 2, zero_second_moment),
{
    if count <= 1 {
        Err(StatsError::NotEnoughData)
    } else if zero_second_moment {
        Err(StatsError::Undefined)
    } else {
        Ok(())
    }
}

/// Sample excess kurtosis needs at least four observations and a
/// non-zero second central moment.
pub fn sample_kurtosis_available(count: u32, zero_second_moment: bool) -> (r: Result<
    (),
    StatsError,
>)
    ensures
        r == spec_ratio_rule(count, 4, zero_second_moment),
{
    if count <= 3 {
        Err(StatsError::NotEnoughData)
    } else if zero_second_moment {
        Err(StatsError::Undefined)
    } else {
        Ok(())
    }
}

/// Constant data keeps every ratio statistic undefined, never merely
/// absent: once a ratio statistic's count threshold is met, a zero
/// second central moment yields exactly `Undefined`.
pub proof fn lemma_zero_variance_undefined(count: u32, required: u32)
    requires
        count >= required,
    ensures
        spec_ratio_rule(count, required, true) == Err::<(), StatsError>(StatsError::Undefined),
{
}

} // verus!
