use vstd::prelude::*;
use crate::batch;
use crate::bits;
use crate::error::StatsError;

verus! {

// The verifiable part of the cached engine: it owns a validated copy of
// the sample encodings and memoizes the order statistics, computing
// each at most once.  Validation happens once, at construction, so a
// sequence containing a NaN or an infinity never becomes a `Stats`
// value at all.  The memoized moment statistics are floating-point
// arithmetic and live with the caller, which reuses this core for
// validation, count, and the extrema, and `crate::avail` for the
// availability decisions.

/// A validated sample array with memoized extrema.
pub struct Stats {
    /// The sample encodings, all finite, never mutated.
    pub data: Vec<u64>,
    /// The memoized minimum: empty until the first query.
    pub min_cell: Option<u64>,
    /// The memoized maximum: empty until the first query.
    pub max_cell: Option<u64>,
}

impl Stats {
    /// Well-formedness: the samples are all finite and a filled memo
    /// cell holds exactly the statistic it caches.
    pub open spec fn wf(&self) -> bool {
        &&& bits::all_finite(self.data@)
        &&& match self.min_cell {
            Some(m) => self.data@.len() > 0 && m == bits::min_word(self.data@),
            None => true,
        }
        &&& match self.max_cell {
            Some(m) => self.data@.len() > 0 && m == bits::max_word(self.data@),
            None => true,
        }
    }

    /// Validate the samples once and take ownership of them.  A
    /// sequence with any NaN or infinite sample is rejected with
    /// `InvalidData` and no `Stats` value is produced.
    pub fn new(data: Vec<u64>) -> (r: Result<Stats, StatsError>)
        ensures
            match r {
                Ok(s) => bits::all_finite(data@) && s.wf() && s.data@ == data@ && s.min_cell
                    is None && s.max_cell is None,
                Err(e) => !bits::all_finite(data@) && e == StatsError::InvalidData,
            },
    {
        match batch::validate(&data) {
            Ok(()) => Ok(Stats { data, min_cell: None, max_cell: None }),
            Err(e) => Err(e),
        }
    }

    /// The number of samples.
    pub fn count(&self) -> (n: u32)
        requires
            self.data@.len() <= u32::MAX,
        ensures
            n == self.data@.len(),
    {
        batch::count(&self.data)
    }

    /// The smallest sample, or `NotEnoughData` for an empty array;
    /// computed on the first call and replayed from the memo cell
    /// afterwards.  Agrees with the batch and incremental engines:
    /// all return `bits::min_word` of the samples.
    pub fn min(&mut self) -> (r: Result<u64, StatsError>)
        requires
            old(self).wf(),
        ensures
            final(self).wf(),
            final(self).data@ == old(self).data@,
            final(self).max_cell == old(self).max_cell,
            r == if old(self).data@.len() == 0 {
                Err::<u64, StatsError>(StatsError::NotEnoughData)
            } else {
                Ok::<u64, StatsError>(bits::min_word(old(self).data@))
            },
    {
        if let Some(m) = self.min_cell {
            return Ok(m);
        }
        match batch::min(&self.data) {
            Ok(m) => {
                self.min_cell = Some(m);
                Ok(m)
            },
            Err(e) => Err(e),
        }
    }

    /// The largest sample, or `NotEnoughData` for an empty array;
    /// computed on the first call and replayed from the memo cell
    /// afterwards.
    pub fn max(&mut self) -> (r: Result<u64, StatsError>)
        requires
            old(self).wf(),
        ensures
            final(self).wf(),
            final(self).data@ == old(self).data@,
            final(self).min_cell == old(self).min_cell,
            r == if old(self).data@.len() == 0 {
                Err::<u64, StatsError>(StatsError::NotEnoughData)
            } else {
                Ok::<u64, StatsError>(bits::max_word(old(self).data@))
            },
    {
        if let Some(m) = self.max_cell {
            return Ok(m);
        }
        match batch::max(&self.data) {
            Ok(m) => {
                self.max_cell = Some(m);
                Ok(m)
            },
            Err(e) => Err(e),
        }
    }
}

} // verus!
