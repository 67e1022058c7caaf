//! Interval buffers: the encoded form of a frame as a sequence of carrier
//! on/off durations, and its reading as decoder events.

use vstd::prelude::*;

verus! {

/// The (level, duration) events a receiver would observe when an interval
/// buffer is played: intervals alternate carrier-on and carrier-off,
/// starting with carrier-on.
pub open spec fn events_of_intervals(iv: Seq<u32>) -> Seq<(bool, u32)> {
    Seq::new(iv.len(), |i: int| (i % 2 == 0, iv[i]))
}

/// Just the durations of a sequence of (level, duration) events.
pub open spec fn event_durations(evts: Seq<(bool, u32)>) -> Seq<u32> {
    Seq::new(evts.len(), |i: int| evts[i].1)
}

/// A sequence of carrier on/off durations in ticks, alternating and
/// starting with carrier-on. Produced by the protocol encoders, played by
/// the sender engine.
#[derive(Clone, Debug)]
pub struct IntervalBuffer {
    pub intervals: Vec<u32>,
}

impl View for IntervalBuffer {
    type V = Seq<u32>;

    open spec fn view(&self) -> Seq<u32> {
        self.intervals@
    }
}

impl IntervalBuffer {
    /// An empty buffer.
    pub fn new() -> (r: IntervalBuffer)
        ensures
            r@ =~= Seq::<u32>::empty(),
    {
        IntervalBuffer { intervals: Vec::new() }
    }

    /// Number of intervals.
    pub fn len(&self) -> (r: usize)
        ensures
            r == self@.len(),
    {
        self.intervals.len()
    }

    /// The duration of interval `i`, in ticks.
    pub fn get(&self, i: usize) -> (r: u32)
        requires
            i < self@.len(),
        ensures
            r == self@[i as int],
    {
        self.intervals[i]
    }

    /// Total duration of the buffer in ticks.
    pub fn total_ticks(&self) -> (r: u64)
        requires
            self@.len() <= 100_000,
        ensures
            r == total_of(self@),
    {
        let mut sum: u64 = 0;
        let mut i: usize = 0;
        while i < self.intervals.len()
            invariant
                i <= self@.len(),
                self@.len() <= 100_000,
                sum == total_of(self@.take(i as int)),
                sum <= i * 0x1_0000_0000,
            decreases self@.len() - i,
        {
            proof {
                assert(self@.take(i + 1).drop_last() =~= self@.take(i as int));
                assert(self@.take(i + 1).last() == self@[i as int]);
            }
            sum = sum + self.intervals[i] as u64;
            i = i + 1;
            proof {
                vstd::arithmetic::mul::lemma_mul_inequality(
                    i as int,
                    self@.len() as int,
                    0x1_0000_0000int,
                );
            }
        }
        proof {
            assert(self@.take(self@.len() as int) =~= self@);
        }
        sum
    }
}

/// Sum of a sequence of durations.
pub open spec fn total_of(iv: Seq<u32>) -> int
    decreases iv.len(),
{
    if iv.len() == 0 {
        0
    } else {
        total_of(iv.drop_last()) + iv.last()
    }
}

} // verus!
