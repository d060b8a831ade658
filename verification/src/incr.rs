use vstd::prelude::*;
use crate::bits;
use crate::error::StatsError;

verus! {

// The control core of the incremental (single-pass) engine.  It owns
// everything about the accumulator that is not floating-point
// arithmetic: the observation count, the running minimum and maximum
// over the sample encodings, and the rejection of NaN and infinite
// samples.  The caller keeps the running moment sums beside this core
// and advances them only after `update` has accepted a sample, so a
// rejected sample leaves the whole accumulator unchanged.

/// Incremental accumulator state: observation count and running extrema
/// over the samples seen so far, with the full sample history carried as
/// a ghost sequence for specification.
pub struct Stats {
    /// Number of observations accepted so far.
    pub count: u32,
    /// Encoding of the smallest observation; meaningless while `count == 0`.
    pub min_word: u64,
    /// Encoding of the largest observation; meaningless while `count == 0`.
    pub max_word: u64,
    /// Every accepted observation, in order.
    pub log: Ghost<Seq<u64>>,
}

impl Stats {
    /// The observations accepted so far, in order.
    pub open spec fn seen(&self) -> Seq<u64> {
        self.log@
    }

    /// Well-formedness: the count matches the history, every accepted
    /// observation is finite, and the extrema are the running minimum
    /// and maximum of the history.
    pub open spec fn wf(&self) -> bool {
        &&& self.count == self.log@.len()
        &&& bits::all_finite(self.log@)
        &&& self.count > 0 ==> self.min_word == bits::min_word(self.log@)
        &&& self.count > 0 ==> self.max_word == bits::max_word(self.log@)
    }

    /// An empty accumulator.
    pub fn new() -> (s: Stats)
        ensures
            s.wf(),
            s.count == 0,
            s.seen() == Seq::<u64>::empty(),
    {
        Stats { count: 0, min_word: 0, max_word: 0, log: Ghost(Seq::empty()) }
    }

    /// Feed one sample.  A NaN or infinite encoding is rejected with
    /// `InvalidData` and the accumulator is left exactly as it was; a
    /// finite encoding is appended to the history, counted, and folded
    /// into the extrema.
    pub fn update(&mut self, w: u64) -> (r: Result<(), StatsError>)
        requires
            old(self).wf(),
            old(self).count < u32::MAX,
        ensures
            final(self).wf(),
            !bits::spec_finite(w) ==> r == Err::<(), StatsError>(StatsError::InvalidData)
                && *final(self) == *old(self),
            bits::spec_finite(w) ==> r == Ok::<(), StatsError>(()) && final(self).seen()
                == old(self).seen().push(w) && final(self).count == old(self).count + 1,
    {
        if !bits::is_finite(w) {
            return Err(StatsError::InvalidData);
        }
        let ghost prev = self.log@;
        if self.count == 0 || bits::lt(w, self.min_word) {
            self.min_word = w;
        }
        if self.count == 0 || bits::lt(self.max_word, w) {
            self.max_word = w;
        }
        self.count = self.count + 1;
        self.log = Ghost(self.log@.push(w));
        proof {
            assert forall|i: int| 0 <= i < self.log@.len() implies bits::spec_finite(
                #[trigger] self.log@[i],
            ) by {
                if i < prev.len() {
                    assert(self.log@[i] == prev[i]);
                } else {
                    assert(self.log@[i] == w);
                }
            }
            if prev.len() > 0 {
                bits::lemma_min_word_push(prev, w);
                bits::lemma_max_word_push(prev, w);
            } else {
                assert(self.log@[0] == w);
            }
        }
        Ok(())
    }

    /// Feed a whole array of samples in order, stopping at the first
    /// NaN or infinite one.  Samples before the first invalid one stay
    /// applied: progress is retained, not rolled back.
    pub fn array_update(&mut self, data: &Vec<u64>) -> (r: Result<(), StatsError>)
        requires
            old(self).wf(),
            old(self).count + data@.len() <= u32::MAX,
        ensures
            final(self).wf(),
            final(self).seen() == old(self).seen() + data@.take(
                bits::finite_prefix_len(data@) as int,
            ),
            final(self).count == old(self).count + bits::finite_prefix_len(data@),
            r == if bits::finite_prefix_len(data@) == data@.len() {
                Ok::<(), StatsError>(())
            } else {
                Err::<(), StatsError>(StatsError::InvalidData)
            },
    {
        let ghost pre = *self;
        let mut i: usize = 0;
        while i < data.len()
            invariant
                pre == *old(self),
                i <= data@.len(),
                pre.count + data@.len() <= u32::MAX,
                self.wf(),
                self.count == pre.count + i,
                self.seen() == pre.seen() + data@.take(i as int),
                forall|j: int| 0 <= j < i ==> bits::spec_finite(#[trigger] data@[j]),
            decreases data@.len() - i,
        {
            let ghost before = *self;
            match self.update(data[i]) {
                Ok(()) => {
                    proof {
                        assert(data@.take(i + 1) =~= data@.take(i as int).push(data@[i as int]));
                        assert(pre.seen() + data@.take(i + 1) =~= (pre.seen() + data@.take(
                            i as int,
                        )).push(data@[i as int]));
                    }
                    i = i + 1;
                },
                Err(e) => {
                    proof {
                        bits::lemma_finite_prefix_len(data@);
                        assert(bits::finite_prefix_len(data@) == i);
                    }
                    return Err(e);
                },
            }
        }
        proof {
            bits::lemma_finite_prefix_len(data@);
            assert(bits::finite_prefix_len(data@) == data@.len());
            assert(data@.take(data@.len() as int) =~= data@);
        }
        Ok(())
    }

    /// The number of observations accepted so far.
    pub fn count(&self) -> (n: u32)
        ensures
            n == self.count,
    {
        self.count
    }

    /// Encoding of the smallest observation, or `NotEnoughData` before
    /// the first one.  Agrees with the batch minimum of the same
    /// samples: both are `bits::min_word` of the history.
    pub fn min(&self) -> (r: Result<u64, StatsError>)
        requires
            self.wf(),
        ensures
            r == if self.count == 0 {
                Err::<u64, StatsError>(StatsError::NotEnoughData)
            } else {
                Ok::<u64, StatsError>(bits::min_word(self.seen()))
            },
    {
        if self.count == 0 {
            return Err(StatsError::NotEnoughData);
        }
        Ok(self.min_word)
    }

    /// Encoding of the largest observation, or `NotEnoughData` before
    /// the first one.  Agrees with the batch maximum of the same
    /// samples: both are `bits::max_word` of the history.
    pub fn max(&self) -> (r: Result<u64, StatsError>)
        requires
            self.wf(),
        ensures
            r == if self.count == 0 {
                Err::<u64, StatsError>(StatsError::NotEnoughData)
            } else {
                Ok::<u64, StatsError>(bits::max_word(self.seen()))
            },
    {
        if self.count == 0 {
            return Err(StatsError::NotEnoughData);
        }
        Ok(self.max_word)
    }
}

} // verus!
