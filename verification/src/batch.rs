use vstd::prelude::*;
use crate::bits;
use crate::error::StatsError;

verus! {

// The verifiable part of the batch (whole-array) engine: validation and
// the order statistics, computed directly from the sample encodings
// with no state.  The moment statistics of the batch engine are pure
// floating-point arithmetic and live with the caller, which uses
// `crate::avail` for their availability decisions.

/// Check that the data contains no NaN or infinite sample.
pub fn validate(data: &Vec<u64>) -> (r: Result<(), StatsError>)
    ensures
        r == if bits::all_finite(data@) {
            Ok::<(), StatsError>(())
        } else {
            Err::<(), StatsError>(StatsError::InvalidData)
        },
{
    let mut i: usize = 0;
    while i < data.len()
        invariant
            i <= data@.len(),
            forall|j: int| 0 <= j < i ==> bits::spec_finite(#[trigger] data@[j]),
        decreases data@.len() - i,
    {
        if !bits::is_finite(data[i]) {
            proof {
                assert(!bits::spec_finite(data@[i as int]));
            }
            return Err(StatsError::InvalidData);
        }
        i = i + 1;
    }
    Ok(())
}

/// The number of samples.
pub fn count(data: &Vec<u64>) -> (n: u32)
    requires
        data@.len() <= u32::MAX,
    ensures
        n == data@.len(),
{
    data.len() as u32
}

/// The smallest sample, or `NotEnoughData` for an empty array.  Agrees
/// with the incremental engine on the same samples: both return
/// `bits::min_word` of the sequence.
pub fn min(data: &Vec<u64>) -> (r: Result<u64, StatsError>)
    requires
        bits::all_finite(data@),
    ensures
        r == if data@.len() == 0 {
            Err::<u64, StatsError>(StatsError::NotEnoughData)
        } else {
            Ok::<u64, StatsError>(bits::min_word(data@))
        },
{
    if data.len() == 0 {
        return Err(StatsError::NotEnoughData);
    }
    let mut best: u64 = data[0];
    let mut i: usize = 1;
    proof {
        assert(data@.take(1)[0] == data@[0]);
    }
    while i < data.len()
        invariant
            1 <= i <= data@.len(),
            best == bits::min_word(data@.take(i as int)),
        decreases data@.len() - i,
    {
        proof {
            bits::lemma_min_word_push(data@.take(i as int), data@[i as int]);
            assert(data@.take(i + 1) =~= data@.take(i as int).push(data@[i as int]));
        }
        if bits::lt(data[i], best) {
            best = data[i];
        }
        i = i + 1;
    }
    proof {
        assert(data@.take(data@.len() as int) =~= data@);
    }
    Ok(best)
}

/// The largest sample, or `NotEnoughData` for an empty array.  Agrees
/// with the incremental engine on the same samples: both return
/// `bits::max_word` of the sequence.
pub fn max(data: &Vec<u64>) -> (r: Result<u64, StatsError>)
    requires
        bits::all_finite(data@),
    ensures
        r == if data@.len() == 0 {
            Err::<u64, StatsError>(StatsError::NotEnoughData)
        } else {
            Ok::<u64, StatsError>(bits::max_word(data@))
        },
{
    if data.len() == 0 {
        return Err(StatsError::NotEnoughData);
    }
    let mut best: u64 = data[0];
    let mut i: usize = 1;
    proof {
        assert(data@.take(1)[0] == data@[0]);
    }
    while i < data.len()
        invariant
            1 <= i <= data@.len(),
            best == bits::max_word(data@.take(i as int)),
        decreases data@.len() - i,
    {
        proof {
            bits::lemma_max_word_push(data@.take(i as int), data@[i as int]);
            assert(data@.take(i + 1) =~= data@.take(i as int).push(data@[i as int]));
        }
        if bits::lt(best, data[i]) {
            best = data[i];
        }
        i = i + 1;
    }
    proof {
        assert(data@.take(data@.len() as int) =~= data@);
    }
    Ok(best)
}

} // verus!
