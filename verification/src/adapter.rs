//! Sampling adapters: turn what the caller can observe into the
//! (level, duration) events the decoders consume.
//!
//! The periodic adapter is fed the pin level once per tick at a fixed
//! rate and synthesises an event whenever the level changes. The event
//! adapter is for edge interrupts: the caller already knows the time
//! since the previous edge and the new level, so it only flips the level
//! into "the level that just ended".

use vstd::prelude::*;

verus! {

/// State of the fixed-rate poller: the level seen last (true is
/// carrier-on) and for how many ticks it has held.
#[derive(Clone, Copy, Debug, PartialEq, Eq, Structural)]
pub struct PeriodicPoll {
    pub level: bool,
    pub count: u32,
}

/// The adapter after one sample, and the event it emits, if any: when the
/// level changes, the ended level and its duration in ticks. The tick
/// count saturates, so an unbounded idle line cannot overflow it; a
/// saturated duration is far beyond every protocol's abandon threshold.
pub open spec fn periodic_spec_sample(a: PeriodicPoll, mark: bool) -> (
    PeriodicPoll,
    Option<(bool, u32)>,
) {
    if mark == a.level {
        let c = if a.count < 0xffff_ffffu32 {
            (a.count + 1) as u32
        } else {
            a.count
        };
        (PeriodicPoll { level: a.level, count: c }, None)
    } else {
        (PeriodicPoll { level: mark, count: 1 }, Some((a.level, a.count)))
    }
}

impl PeriodicPoll {
    /// A fresh poller: the line is idle (carrier off).
    pub fn new() -> (r: PeriodicPoll)
        ensures
            r == (PeriodicPoll { level: false, count: 0u32 }),
    {
        PeriodicPoll { level: false, count: 0 }
    }

    /// Record one sample of the pin; exactly `periodic_spec_sample`.
    pub fn sample(&mut self, mark: bool) -> (r: Option<(bool, u32)>)
        ensures
            (*final(self), r) == periodic_spec_sample(*old(self), mark),
    {
        if mark == self.level {
            if self.count < 0xffff_ffff {
                self.count = self.count + 1;
            }
            None
        } else {
            let ended = self.level;
            let dur = self.count;
            self.level = mark;
            self.count = 1;
            Some((ended, dur))
        }
    }
}

} // verus!
