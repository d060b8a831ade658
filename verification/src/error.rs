use vstd::prelude::*;

verus! {

/// Why a statistics query could not produce a value.
///
/// The three kinds are uniform across the incremental, batch and cached
/// engines: a sample (or an element of a batch) that is NaN or infinite,
/// a sample count below the statistic's minimum, and data for which a
/// ratio statistic is mathematically undefined (zero variance).
#[derive(Debug, Clone, Copy, PartialEq, Eq, Structural)]
pub enum StatsError {
    /// The current sample count is below the statistic's minimum.
    NotEnoughData,
    /// The statistic is mathematically undefined for the observed data.
    Undefined,
    /// An observation is NaN or infinite.
    InvalidData,
}

impl StatsError {
    /// A short human-readable description of the error.
    pub fn message(&self) -> (m: &'static str)
        ensures
            m@ == match self {
                StatsError::NotEnoughData => "not enough data"@,
                StatsError::Undefined => "data produces undefined values"@,
                StatsError::InvalidData => "data contains NaNs or Infs"@,
            },
    {
        match self {
            StatsError::NotEnoughData => "not enough data",
            StatsError::Undefined => "data produces undefined values",
            StatsError::InvalidData => "data contains NaNs or Infs",
        }
    }
}

} // verus!
