//! The RC-6 protocol, mode 0: bi-phase coding on a 444 µs half-cell grid
//! behind a 2666 µs / 889 µs leader.
//!
//! After the leader come, MSB first: a fixed start bit (1), 3 mode bits,
//! the toggle bit at doubled cell time (889 µs halves), 8 address bits and
//! 8 command bits. Polarity is opposite to RC-5: a 1 is (mark, space), a 0
//! is (space, mark). Adjacent equal half-cells merge on the wire into
//! periods of up to three grid units, and a trailing carrier-off half
//! folds into the idle gap.

use vstd::prelude::*;
use crate::cmd::{DecodeResult, DecoderError, Rc6Command};
use crate::range::{
    lemma_nominal_in_window, lemma_scaled_above_window, lemma_scaled_in_window,
    lemma_scaled_ticks_le, lemma_ticks_bounds, lemma_ticks_ordered, ticks, ticks_of, TickRange,
};
use crate::stream::{event_durations, events_of_intervals, IntervalBuffer};

verus! {

/// Nominal half-cell duration in microseconds.
pub const RC6_UNIT_US: u32 = 444;

/// Nominal leader pulse duration in microseconds.
pub const RC6_LEADER_US: u32 = 2666;

/// Nominal two-unit duration (leader space, toggle halves) in microseconds.
pub const RC6_TWO_US: u32 = 889;

/// Nominal three-unit period duration in microseconds.
pub const RC6_THREE_US: u32 = 1332;

/// Tolerance applied around the nominal durations, in percent. Unit
/// multiples up to three must stay apart, so this is tighter than NEC's.
pub const RC6_TOL_PCT: u32 = 15;

/// A duration longer than this many microseconds abandons a frame.
pub const RC6_TIMEOUT_US: u32 = 10_000;

/// The lowest sampling rate the round-trip and rate-invariance theorems
/// cover. Resolving the 444 µs half-cell needs 4.5 kHz; the stated bound
/// is higher because the 15%-widened windows for one, two and three grid
/// units must also stay apart after the tick conversion rounds down.
pub const RC6_MIN_RATE_HZ: u32 = 16_200;

/// Collected bit `n` (1-based) of the 21 bits a frame carries, in wire
/// order: start, 3 mode bits, toggle, 8 address bits, 8 command bits.
pub open spec fn rc6_cbit(c: Rc6Command, n: int) -> bool {
    if n == 1 {
        true
    } else if 2 <= n < 5 {
        (c.mode >> ((4 - n) as u8)) & 1 == 1
    } else if n == 5 {
        c.toggle
    } else if 6 <= n < 14 {
        (c.addr >> ((13 - n) as u8)) & 1 == 1
    } else {
        (c.cmd >> ((21 - n) as u8)) & 1 == 1
    }
}

/// The 44 grid-unit levels of the bi-phase section (true is carrier-on):
/// single-width cells occupy two units, the toggle cell four.
pub open spec fn rc6_levels(c: Rc6Command) -> Seq<bool> {
    Seq::new(
        44,
        |u: int|
            if u < 8 {
                if u % 2 == 0 {
                    rc6_cbit(c, u / 2 + 1)
                } else {
                    !rc6_cbit(c, u / 2 + 1)
                }
            } else if u < 12 {
                if u < 10 {
                    rc6_cbit(c, 5)
                } else {
                    !rc6_cbit(c, 5)
                }
            } else {
                if (u - 12) % 2 == 0 {
                    rc6_cbit(c, (u - 12) / 2 + 6)
                } else {
                    !rc6_cbit(c, (u - 12) / 2 + 6)
                }
            },
    )
}

/// The (level, duration) events of the bi-phase section from unit `i` on:
/// runs of equal level merge into one period of up to three units, and a
/// trailing carrier-off period folds into the idle gap.
pub open spec fn rc6_runlen(lv: Seq<bool>, i: int) -> int {
    if i + 1 < lv.len() && lv[i + 1] == lv[i] {
        if i + 2 < lv.len() && lv[i + 2] == lv[i] {
            3
        } else {
            2
        }
    } else {
        1
    }
}

pub open spec fn rc6_events(lv: Seq<bool>, i: int, unit: u32) -> Seq<(bool, u32)>
    decreases lv.len() - i,
{
    if i < 0 || i >= lv.len() {
        Seq::empty()
    } else {
        let l = lv[i];
        let run: int = rc6_runlen(lv, i);
        if i + run >= lv.len() && !l {
            Seq::empty()
        } else {
            seq![(l, (run * unit) as u32)] + rc6_events(lv, i + run, unit)
        }
    }
}

/// A unit position whose level determines a collected bit: the first unit
/// of the first half of each cell.
pub open spec fn rc6_defining(p: int) -> bool {
    ||| (0 <= p < 8 && p % 2 == 0)
    ||| p == 8
    ||| (12 <= p < 44 && p % 2 == 0)
}

/// How many bits are collected once every unit before `p` is assigned.
pub open spec fn rc6_cnt(p: int) -> int {
    if p <= 8 {
        (p + 1) / 2
    } else if p <= 12 {
        5
    } else {
        5 + (p - 11) / 2
    }
}

/// The collected bits as the decoder accumulates them, MSB first.
pub open spec fn rc6_prefix(c: Rc6Command, n: int) -> u32
    decreases n,
{
    if n <= 0 {
        0u32
    } else {
        (rc6_prefix(c, n - 1) << 1) | (if rc6_cbit(c, n) {
            1u32
        } else {
            0u32
        })
    }
}

/// Shift the level of unit `p` into the accumulator if `p` determines a
/// bit.
pub open spec fn rc6_collect1(bits: u32, p: int, l: bool) -> u32 {
    if rc6_defining(p) {
        (bits << 1) | (if l {
            1u32
        } else {
            0u32
        })
    } else {
        bits
    }
}

/// Shift in every defining unit a period of `u` units covers.
pub open spec fn rc6_collect(bits: u32, p: int, u: int, l: bool) -> u32 {
    let b1 = rc6_collect1(bits, p, l);
    let b2 = if u >= 2 {
        rc6_collect1(b1, p + 1, l)
    } else {
        b1
    };
    if u >= 3 {
        rc6_collect1(b2, p + 2, l)
    } else {
        b2
    }
}

/// Split the 21 collected bits into the command's fields (the fixed start
/// bit is dropped).
pub open spec fn rc6_extract(bits: u32) -> Rc6Command {
    Rc6Command {
        addr: ((bits >> 8) & 0xFF) as u8,
        cmd: (bits & 0xFF) as u8,
        mode: ((bits >> 17) & 7) as u8,
        toggle: (bits >> 16) & 1 == 1,
    }
}

/// Where the decoder stands inside a frame.
#[derive(Clone, Copy, Debug, PartialEq, Eq, Structural)]
pub enum Rc6State {
    Idle,
    /// A rising edge was seen; the leader pulse is in flight.
    LeaderPulse,
    /// The leader pulse matched; its space is in flight.
    LeaderSpace,
    /// Inside the bi-phase section: `pos` is the next grid unit to fill,
    /// `bits` the bits collected so far, MSB first.
    Run { pos: u8, bits: u32 },
}

/// An RC-6 decoder: period windows for one, two and three grid units, the
/// leader pulse window, the abandon threshold, and the current state.
#[derive(Clone, Copy, Debug)]
pub struct Rc6Decoder {
    pub one: TickRange,
    pub two: TickRange,
    pub three: TickRange,
    pub leader: TickRange,
    pub max: u32,
    pub rate: u32,
    pub s: Rc6State,
}

/// The decoder after one event, and what that event produced.
pub open spec fn rc6_spec_event(d: Rc6Decoder, mark: bool, dur: u32) -> (
    Rc6Decoder,
    DecodeResult<Rc6Command>,
) {
    match d.s {
        Rc6State::Idle => {
            if !mark {
                (Rc6Decoder { s: Rc6State::LeaderPulse, ..d }, DecodeResult::InProgress)
            } else {
                (d, DecodeResult::Idle)
            }
        },
        Rc6State::LeaderPulse => {
            if dur > d.max {
                (Rc6Decoder { s: Rc6State::Idle, ..d }, DecodeResult::Idle)
            } else if mark && d.leader.spec_contains(dur as int) {
                (Rc6Decoder { s: Rc6State::LeaderSpace, ..d }, DecodeResult::InProgress)
            } else {
                (Rc6Decoder { s: Rc6State::Idle, ..d }, DecodeResult::Failed(DecoderError::Timing))
            }
        },
        Rc6State::LeaderSpace => {
            if dur > d.max {
                (Rc6Decoder { s: Rc6State::Idle, ..d }, DecodeResult::Idle)
            } else if !mark && d.two.spec_contains(dur as int) {
                (Rc6Decoder { s: Rc6State::Run { pos: 0, bits: 0 }, ..d }, DecodeResult::InProgress)
            } else {
                (Rc6Decoder { s: Rc6State::Idle, ..d }, DecodeResult::Failed(DecoderError::Timing))
            }
        },
        Rc6State::Run { pos, bits } => {
            if dur > d.max {
                (Rc6Decoder { s: Rc6State::Idle, ..d }, DecodeResult::Idle)
            } else {
                let u: u8 = if d.one.spec_contains(dur as int) {
                    1
                } else if d.two.spec_contains(dur as int) {
                    2
                } else if d.three.spec_contains(dur as int) {
                    3
                } else {
                    0
                };
                if u == 0 {
                    (Rc6Decoder { s: Rc6State::Idle, ..d }, DecodeResult::Failed(
                        DecoderError::Timing,
                    ))
                } else {
                    let bits2 = rc6_collect(bits, pos as int, u as int, mark);
                    let pos2: u8 = (pos + u) as u8;
                    if pos2 >= 43 {
                        (Rc6Decoder { s: Rc6State::Idle, ..d }, DecodeResult::Done(
                            rc6_extract(bits2),
                        ))
                    } else {
                        (
                            Rc6Decoder { s: Rc6State::Run { pos: pos2, bits: bits2 }, ..d },
                            DecodeResult::InProgress,
                        )
                    }
                }
            }
        },
    }
}

impl Rc6Decoder {
    pub open spec fn wf(self) -> bool {
        &&& 1 <= self.rate <= 1_000_000
        &&& self.one.is_window(RC6_UNIT_US as int, RC6_TOL_PCT as int, self.rate as int)
        &&& self.two.is_window(RC6_TWO_US as int, RC6_TOL_PCT as int, self.rate as int)
        &&& self.three.is_window(RC6_THREE_US as int, RC6_TOL_PCT as int, self.rate as int)
        &&& self.leader.is_window(RC6_LEADER_US as int, RC6_TOL_PCT as int, self.rate as int)
        &&& self.max == ticks_of(RC6_TIMEOUT_US as int, self.rate as int)
        &&& (self.s matches Rc6State::Run { pos, .. } ==> pos <= 42)
    }

    /// Build a decoder whose events will be measured in ticks of `rate`
    /// per second; all windows are precomputed here.
    pub fn new(rate: u32) -> (r: Rc6Decoder)
        requires
            1 <= rate <= 1_000_000,
        ensures
            r.wf(),
            r.rate == rate,
            r.s == Rc6State::Idle,
    {
        Rc6Decoder {
            one: TickRange::new(RC6_UNIT_US, RC6_TOL_PCT, rate),
            two: TickRange::new(RC6_TWO_US, RC6_TOL_PCT, rate),
            three: TickRange::new(RC6_THREE_US, RC6_TOL_PCT, rate),
            leader: TickRange::new(RC6_LEADER_US, RC6_TOL_PCT, rate),
            max: ticks(RC6_TIMEOUT_US, rate),
            rate,
            s: Rc6State::Idle,
        }
    }

    /// Feed the decoder the level that just ended (`mark` is carrier-on)
    /// and its duration in ticks.
    pub fn event(&mut self, mark: bool, dur: u32) -> (r: DecodeResult<Rc6Command>)
        requires
            old(self).wf(),
        ensures
            final(self).wf(),
            (*final(self), r) == rc6_spec_event(*old(self), mark, dur),
    {
        match self.s {
            Rc6State::Idle => {
                if !mark {
                    self.s = Rc6State::LeaderPulse;
                    DecodeResult::InProgress
                } else {
                    DecodeResult::Idle
                }
            },
            Rc6State::LeaderPulse => {
                if dur > self.max {
                    self.s = Rc6State::Idle;
                    DecodeResult::Idle
                } else if mark && self.leader.contains(dur) {
                    self.s = Rc6State::LeaderSpace;
                    DecodeResult::InProgress
                } else {
                    self.s = Rc6State::Idle;
                    DecodeResult::Failed(DecoderError::Timing)
                }
            },
            Rc6State::LeaderSpace => {
                if dur > self.max {
                    self.s = Rc6State::Idle;
                    DecodeResult::Idle
                } else if !mark && self.two.contains(dur) {
                    self.s = Rc6State::Run { pos: 0, bits: 0 };
                    DecodeResult::InProgress
                } else {
                    self.s = Rc6State::Idle;
                    DecodeResult::Failed(DecoderError::Timing)
                }
            },
            Rc6State::Run { pos, bits } => {
                if dur > self.max {
                    self.s = Rc6State::Idle;
                    DecodeResult::Idle
                } else {
                    let u: u8 = if self.one.contains(dur) {
                        1
                    } else if self.two.contains(dur) {
                        2
                    } else if self.three.contains(dur) {
                        3
                    } else {
                        0
                    };
                    if u == 0 {
                        self.s = Rc6State::Idle;
                        DecodeResult::Failed(DecoderError::Timing)
                    } else {
                        let mut bits2 = rc6_collect1_exec(bits, pos, mark);
                        if u >= 2 {
                            bits2 = rc6_collect1_exec(bits2, pos + 1, mark);
                        }
                        if u >= 3 {
                            bits2 = rc6_collect1_exec(bits2, pos + 2, mark);
                        }
                        let pos2: u8 = pos + u;
                        if pos2 >= 43 {
                            self.s = Rc6State::Idle;
                            DecodeResult::Done(rc6_extract_exec(bits2))
                        } else {
                            self.s = Rc6State::Run { pos: pos2, bits: bits2 };
                            DecodeResult::InProgress
                        }
                    }
                }
            },
        }
    }
}

/// Shift in one unit's level if it determines a bit; exactly
/// `rc6_collect1`.
fn rc6_collect1_exec(bits: u32, p: u8, l: bool) -> (r: u32)
    ensures
        r == rc6_collect1(bits, p as int, l),
{
    let defining = (p < 8 && p % 2 == 0) || p == 8 || (12 <= p && p < 44 && p % 2 == 0);
    if defining {
        (bits << 1) | (if l {
            1
        } else {
            0
        })
    } else {
        bits
    }
}

/// Split the collected bits into the command's fields; exactly
/// `rc6_extract`.
pub fn rc6_extract_exec(bits: u32) -> (r: Rc6Command)
    ensures
        r == rc6_extract(bits),
{
    proof {
        assert((bits >> 8) & 0xFF < 256 && bits & 0xFF < 256 && (bits >> 17) & 7 < 8)
            by (bit_vector);
    }
    Rc6Command {
        addr: ((bits >> 8) & 0xFF) as u8,
        cmd: (bits & 0xFF) as u8,
        mode: ((bits >> 17) & 7) as u8,
        toggle: (bits >> 16) & 1 == 1,
    }
}

/// Run a decoder over a sequence of (mark, duration) events.
pub open spec fn rc6_run(d: Rc6Decoder, evts: Seq<(bool, u32)>) -> (
    Rc6Decoder,
    Seq<DecodeResult<Rc6Command>>,
)
    decreases evts.len(),
{
    if evts.len() == 0 {
        (d, Seq::empty())
    } else {
        let first = rc6_spec_event(d, evts[0].0, evts[0].1);
        let rest = rc6_run(first.0, evts.drop_first());
        (rest.0, seq![first.1] + rest.1)
    }
}

/// Rate invariance: two decoders built at different sufficient sampling
/// rates, each fed the same frame as measured in its own time base,
/// decode the same command.
pub proof fn lemma_rc6_rate_invariance(
    d1: Rc6Decoder,
    d2: Rc6Decoder,
    c: Rc6Command,
    gap1: u32,
    gap2: u32,
)
    requires
        d1.wf(),
        d2.wf(),
        RC6_MIN_RATE_HZ <= d1.rate,
        RC6_MIN_RATE_HZ <= d2.rate,
        d1.s == Rc6State::Idle,
        d2.s == Rc6State::Idle,
        c.mode < 8,
    ensures
        ({
            let e1 = seq![
                (false, gap1),
                (true, ticks_of(RC6_LEADER_US as int, d1.rate as int) as u32),
                (false, ticks_of(RC6_TWO_US as int, d1.rate as int) as u32),
            ] + rc6_events(rc6_levels(c), 0, ticks_of(RC6_UNIT_US as int, d1.rate as int) as u32);
            let e2 = seq![
                (false, gap2),
                (true, ticks_of(RC6_LEADER_US as int, d2.rate as int) as u32),
                (false, ticks_of(RC6_TWO_US as int, d2.rate as int) as u32),
            ] + rc6_events(rc6_levels(c), 0, ticks_of(RC6_UNIT_US as int, d2.rate as int) as u32);
            let k1 = if rc6_cbit(c, 21) {
                e1.len() - 1
            } else {
                e1.len() - 2
            };
            let k2 = if rc6_cbit(c, 21) {
                e2.len() - 1
            } else {
                e2.len() - 2
            };
            &&& rc6_run(d1, e1).1[k1 as int] == rc6_run(d2, e2).1[k2 as int]
            &&& rc6_run(d1, e1).1[k1 as int] == DecodeResult::Done(c)
        }),
{
    lemma_rc6_round_trip(d1, c, gap1);
    lemma_rc6_round_trip(d2, c, gap2);
}

/// Determinism: the same state and the same events give the same outputs.
pub proof fn lemma_rc6_deterministic(d1: Rc6Decoder, d2: Rc6Decoder, evts: Seq<(bool, u32)>)
    requires
        d1 == d2,
    ensures
        rc6_run(d1, evts) == rc6_run(d2, evts),
{
}

/// Idle recovery: while a frame is in flight, an overlong duration
/// abandons it and returns the decoder to idle.
pub proof fn lemma_rc6_idle_recovery(d: Rc6Decoder, mark: bool, dur: u32)
    requires
        !(d.s is Idle),
        dur > d.max,
    ensures
        rc6_spec_event(d, mark, dur).0.s == Rc6State::Idle,
        rc6_spec_event(d, mark, dur).1 == DecodeResult::<Rc6Command>::Idle,
{
}

/// The bits the decoder collects from a frame are the command's fields:
/// extracting them undoes the accumulation, for commands whose mode fits
/// its 3-bit field.
#[verifier::rlimit(100)]
pub proof fn lemma_rc6_extract_prefix(c: Rc6Command)
    requires
        c.mode < 8,
    ensures
        rc6_extract(rc6_prefix(c, 21)) == c,
{
    let a = c.addr;
    let m = c.cmd;
    let md = c.mode;
    let t = c.toggle;
    let b = rc6_prefix(c, 21);
    let q1: u32 = (0u32 << 1) | 1u32;
    let q2: u32 = (q1 << 1) | (if (md >> 2) & 1 == 1 { 1 } else { 0 });
    let q3: u32 = (q2 << 1) | (if (md >> 1) & 1 == 1 { 1 } else { 0 });
    let q4: u32 = (q3 << 1) | (if (md >> 0) & 1 == 1 { 1 } else { 0 });
    let q5: u32 = (q4 << 1) | (if t { 1 } else { 0 });
    let q6: u32 = (q5 << 1) | (if (a >> 7) & 1 == 1 { 1 } else { 0 });
    let q7: u32 = (q6 << 1) | (if (a >> 6) & 1 == 1 { 1 } else { 0 });
    let q8: u32 = (q7 << 1) | (if (a >> 5) & 1 == 1 { 1 } else { 0 });
    let q9: u32 = (q8 << 1) | (if (a >> 4) & 1 == 1 { 1 } else { 0 });
    let q10: u32 = (q9 << 1) | (if (a >> 3) & 1 == 1 { 1 } else { 0 });
    let q11: u32 = (q10 << 1) | (if (a >> 2) & 1 == 1 { 1 } else { 0 });
    let q12: u32 = (q11 << 1) | (if (a >> 1) & 1 == 1 { 1 } else { 0 });
    let q13: u32 = (q12 << 1) | (if (a >> 0) & 1 == 1 { 1 } else { 0 });
    let q14: u32 = (q13 << 1) | (if (m >> 7) & 1 == 1 { 1 } else { 0 });
    let q15: u32 = (q14 << 1) | (if (m >> 6) & 1 == 1 { 1 } else { 0 });
    let q16: u32 = (q15 << 1) | (if (m >> 5) & 1 == 1 { 1 } else { 0 });
    let q17: u32 = (q16 << 1) | (if (m >> 4) & 1 == 1 { 1 } else { 0 });
    let q18: u32 = (q17 << 1) | (if (m >> 3) & 1 == 1 { 1 } else { 0 });
    let q19: u32 = (q18 << 1) | (if (m >> 2) & 1 == 1 { 1 } else { 0 });
    let q20: u32 = (q19 << 1) | (if (m >> 1) & 1 == 1 { 1 } else { 0 });
    let q21: u32 = (q20 << 1) | (if (m >> 0) & 1 == 1 { 1 } else { 0 });
    assert(b == q21) by {
        reveal_with_fuel(rc6_prefix, 22);
    }
    assert(((q21 >> 8) & 0xFF) as u8 == a && (q21 & 0xFF) as u8 == m && ((q21 >> 17) & 7) as u8
        == md && ((q21 >> 16) & 1 == 1) == t) by (bit_vector)
        requires
            md < 8,
            q1 == (0u32 << 1) | 1u32,
            q2 == (q1 << 1) | (if (md >> 2) & 1 == 1 { 1u32 } else { 0u32 }),
            q3 == (q2 << 1) | (if (md >> 1) & 1 == 1 { 1u32 } else { 0u32 }),
            q4 == (q3 << 1) | (if (md >> 0) & 1 == 1 { 1u32 } else { 0u32 }),
            q5 == (q4 << 1) | (if t { 1u32 } else { 0u32 }),
            q6 == (q5 << 1) | (if (a >> 7) & 1 == 1 { 1u32 } else { 0u32 }),
            q7 == (q6 << 1) | (if (a >> 6) & 1 == 1 { 1u32 } else { 0u32 }),
            q8 == (q7 << 1) | (if (a >> 5) & 1 == 1 { 1u32 } else { 0u32 }),
            q9 == (q8 << 1) | (if (a >> 4) & 1 == 1 { 1u32 } else { 0u32 }),
            q10 == (q9 << 1) | (if (a >> 3) & 1 == 1 { 1u32 } else { 0u32 }),
            q11 == (q10 << 1) | (if (a >> 2) & 1 == 1 { 1u32 } else { 0u32 }),
            q12 == (q11 << 1) | (if (a >> 1) & 1 == 1 { 1u32 } else { 0u32 }),
            q13 == (q12 << 1) | (if (a >> 0) & 1 == 1 { 1u32 } else { 0u32 }),
            q14 == (q13 << 1) | (if (m >> 7) & 1 == 1 { 1u32 } else { 0u32 }),
            q15 == (q14 << 1) | (if (m >> 6) & 1 == 1 { 1u32 } else { 0u32 }),
            q16 == (q15 << 1) | (if (m >> 5) & 1 == 1 { 1u32 } else { 0u32 }),
            q17 == (q16 << 1) | (if (m >> 4) & 1 == 1 { 1u32 } else { 0u32 }),
            q18 == (q17 << 1) | (if (m >> 3) & 1 == 1 { 1u32 } else { 0u32 }),
            q19 == (q18 << 1) | (if (m >> 2) & 1 == 1 { 1u32 } else { 0u32 }),
            q20 == (q19 << 1) | (if (m >> 1) & 1 == 1 { 1u32 } else { 0u32 }),
            q21 == (q20 << 1) | (if (m >> 0) & 1 == 1 { 1u32 } else { 0u32 }),
    ;
}


/// A run produces one result per event.
pub proof fn lemma_rc6_run_len(d: Rc6Decoder, evts: Seq<(bool, u32)>)
    ensures
        rc6_run(d, evts).1.len() == evts.len(),
    decreases evts.len(),
{
    if evts.len() > 0 {
        lemma_rc6_run_len(rc6_spec_event(d, evts[0].0, evts[0].1).0, evts.drop_first());
    }
}

/// A stream whose carrier-on periods are all too short for the leader
/// pulse never carries an RC-6 decoder past its leader hunt: it never
/// completes a frame, so another protocol's traffic can never decode as
/// an RC-6 command.
pub proof fn lemma_rc6_ignores_short_marks(d: Rc6Decoder, evts: Seq<(bool, u32)>)
    requires
        d.s is Idle || d.s is LeaderPulse,
        forall|i: int|
            0 <= i < evts.len() ==> ((#[trigger] evts[i]).0 ==> evts[i].1 < d.leader.lo),
    ensures
        rc6_run(d, evts).0.s is Idle || rc6_run(d, evts).0.s is LeaderPulse,
        forall|i: int| 0 <= i < evts.len() ==> !(#[trigger] rc6_run(d, evts).1[i] is Done),
    decreases evts.len(),
{
    reveal_with_fuel(rc6_run, 2);
    if evts.len() > 0 {
        let st = rc6_spec_event(d, evts[0].0, evts[0].1);
        assert(st.0.s is Idle || st.0.s is LeaderPulse);
        assert(!(st.1 is Done));
        assert(st.0.leader == d.leader);
        assert forall|i: int| 0 <= i < evts.drop_first().len() implies ((#[trigger] evts.drop_first()[i]).0
            ==> evts.drop_first()[i].1 < st.0.leader.lo) by {
            assert(evts.drop_first()[i] == evts[i + 1]);
        }
        lemma_rc6_ignores_short_marks(st.0, evts.drop_first());
        lemma_rc6_run_len(st.0, evts.drop_first());
        let nr = rc6_run(d, evts);
        let nrr = rc6_run(st.0, evts.drop_first());
        assert(nr.1 == seq![st.1] + nrr.1);
        assert forall|i: int| 0 <= i < evts.len() implies !(#[trigger] nr.1[i] is Done) by {
            if i >= 1 {
                assert(nr.1[i] == nrr.1[i - 1]);
            }
        }
    }
}

/// One wire period, starting at unit `pos`: its run length stays on the
/// grid, lands on a period start, and collecting its level extends the
/// collected bits by exactly the bits its defining units carry.
#[verifier::rlimit(60)]
proof fn lemma_rc6_period(c: Rc6Command, pos: int)
    requires
        0 <= pos <= 42,
        pos != 9,
        pos != 11,
    ensures
        ({
            let lv = rc6_levels(c);
            let run = rc6_runlen(lv, pos);
            &&& 1 <= run <= 3
            &&& pos + run <= 43
            &&& pos + run != 9
            &&& pos + run != 11
            &&& rc6_collect(rc6_prefix(c, rc6_cnt(pos)), pos, run, lv[pos]) == rc6_prefix(
                c,
                rc6_cnt(pos + run),
            )
            &&& pos + run < 44 ==> lv[pos + run] != lv[pos]
        }),
{
    let lv = rc6_levels(c);
    let l = lv[pos];
    let run = rc6_runlen(lv, pos);
    let bits = rc6_prefix(c, rc6_cnt(pos));
    let bits2 = rc6_collect(bits, pos, run, l);
    if pos < 8 {
        if pos % 2 == 0 {
            assert(lv[pos] == rc6_cbit(c, pos / 2 + 1));
            assert(lv[pos + 1] == !rc6_cbit(c, (pos + 1) / 2 + 1));
            assert((pos + 1) / 2 == pos / 2);
            assert(run == 1);
            assert(rc6_cnt(pos) == pos / 2);
            assert(rc6_cnt(pos + 1) == pos / 2 + 1);
        } else if pos < 7 {
            assert(lv[pos] == !rc6_cbit(c, pos / 2 + 1));
            assert(lv[pos + 1] == rc6_cbit(c, (pos + 1) / 2 + 1));
            assert((pos + 1) / 2 == pos / 2 + 1);
            if run >= 2 {
                assert(lv[pos + 2] == !rc6_cbit(c, (pos + 2) / 2 + 1));
                assert((pos + 2) / 2 == pos / 2 + 1);
                assert(lv[pos + 2] == !l);
                assert(run == 2);
                assert(rc6_cnt(pos) == (pos + 1) / 2);
                assert(rc6_cnt(pos + 2) == (pos + 1) / 2 + 1);
            } else {
                assert(rc6_cnt(pos + 1) == rc6_cnt(pos));
            }
        } else {
            // pos == 7: either one unit, or a three-unit run across the
            // toggle cell's first half.
            assert(lv[7] == !rc6_cbit(c, 4));
            assert(lv[8] == rc6_cbit(c, 5));
            assert(lv[9] == rc6_cbit(c, 5));
            assert(lv[10] == !rc6_cbit(c, 5));
            if run >= 2 {
                assert(run == 3);
                assert(rc6_cbit(c, 5) == l);
                assert(rc6_cnt(7) == 4 && rc6_cnt(10) == 5);
            } else {
                assert(rc6_cnt(8) == 4);
            }
        }
    } else if pos == 8 {
        assert(lv[8] == rc6_cbit(c, 5));
        assert(lv[9] == rc6_cbit(c, 5));
        assert(lv[10] == !rc6_cbit(c, 5));
        assert(run == 2);
        assert(rc6_cnt(8) == 4 && rc6_cnt(10) == 5);
    } else if pos == 10 {
        assert(lv[10] == !rc6_cbit(c, 5));
        assert(lv[11] == !rc6_cbit(c, 5));
        assert(lv[12] == rc6_cbit(c, 6));
        if run == 3 {
            assert(rc6_cbit(c, 6) == l);
            assert(lv[13] == !rc6_cbit(c, 6));
            assert(rc6_cnt(10) == 5 && rc6_cnt(13) == 6);
        } else {
            assert(run == 2);
            assert(rc6_cnt(12) == 5);
        }
    } else {
        // Data section, pos >= 12.
        if pos % 2 == 0 {
            assert(lv[pos] == rc6_cbit(c, (pos - 12) / 2 + 6));
            assert(lv[pos + 1] == !rc6_cbit(c, (pos + 1 - 12) / 2 + 6));
            assert((pos + 1 - 12) / 2 == (pos - 12) / 2);
            assert(run == 1);
            assert(rc6_cnt(pos) == 5 + (pos - 12) / 2);
            assert(rc6_cnt(pos + 1) == 5 + (pos - 12) / 2 + 1);
        } else {
            assert(lv[pos] == !rc6_cbit(c, (pos - 12) / 2 + 6));
            if pos + 1 < 44 {
                assert(lv[pos + 1] == rc6_cbit(c, (pos + 1 - 12) / 2 + 6));
                assert((pos + 1 - 12) / 2 == (pos - 12) / 2 + 1);
            }
            if run >= 2 {
                if pos + 2 < 44 {
                    assert(lv[pos + 2] == !rc6_cbit(c, (pos + 2 - 12) / 2 + 6));
                    assert((pos + 2 - 12) / 2 == (pos - 12) / 2 + 1);
                    assert(lv[pos + 2] == !l);
                }
                assert(run == 2);
                assert(rc6_cnt(pos) == 5 + (pos - 11) / 2);
                assert((pos + 1 - 12) / 2 + 6 == rc6_cnt(pos) + 1);
                assert(rc6_cnt(pos + 2) == rc6_cnt(pos) + 1);
            } else {
                assert(rc6_cnt(pos + 1) == rc6_cnt(pos));
            }
        }
    }
}

/// Mid-frame induction for the round trip: from grid unit `pos` with the
/// matching bits collected, the rest of the wire events drive the decoder
/// to completion. Positions 9 and 11 are second halves inside the toggle
/// cell and are never period starts.
#[verifier::rlimit(60)]
proof fn lemma_rc6_steps(d: Rc6Decoder, c: Rc6Command, pos: int)
    requires
        d.wf(),
        RC6_MIN_RATE_HZ <= d.rate,
        0 <= pos <= 42,
        pos != 9,
        pos != 11,
        d.s == (Rc6State::Run { pos: pos as u8, bits: rc6_prefix(c, rc6_cnt(pos)) }),
    ensures
        ({
            let evts = rc6_events(
                rc6_levels(c),
                pos,
                ticks_of(RC6_UNIT_US as int, d.rate as int) as u32,
            );
            let rr = rc6_run(d, evts);
            let n = evts.len() as int;
            let donei = if rc6_cbit(c, 21) {
                n - 1
            } else {
                n - 2
            };
            &&& rr.1.len() == n
            &&& 0 <= donei < n
            &&& rr.1[donei] == DecodeResult::Done(rc6_extract(rc6_prefix(c, 21)))
            &&& forall|i: int| 0 <= i < donei ==> rr.1[i] == DecodeResult::<Rc6Command>::InProgress
            &&& forall|i: int| donei < i < n ==> rr.1[i] == DecodeResult::<Rc6Command>::Idle
            &&& rr.0.s == Rc6State::Idle
        }),
    decreases 43 - pos,
{
    reveal_with_fuel(rc6_run, 4);
    reveal_with_fuel(rc6_events, 4);
    let r = d.rate as int;
    lemma_ticks_bounds(444, r);
    let unit: u32 = ticks_of(444, r) as u32;
    let lv = rc6_levels(c);
    let evts = rc6_events(lv, pos, unit);
    let l = lv[pos];
    let run = rc6_runlen(lv, pos);
    // Each scaled run sits in its own window, above every shorter one,
    // and below the abandon threshold.
    lemma_nominal_in_window(444, 15, r);
    lemma_ticks_ordered(444, 10_000, r);
    assert(r * (100 * 2 * 444 - 889 * (100 - 15)) >= 100 * 2 * (1_000_000 - 1))
        by (nonlinear_arith)
        requires
            r >= 16_200,
    ;
    lemma_scaled_in_window(444, 2, 889, 15, r);
    assert(r * (100 * 2 * 444 - 444 * (100 + 15)) >= 100 * 2 * (1_000_000 - 1) + 200_000_000)
        by (nonlinear_arith)
        requires
            r >= 16_200,
    ;
    lemma_scaled_above_window(444, 2, 444, 15, r);
    lemma_scaled_ticks_le(444, 2, r);
    lemma_ticks_ordered(888, 10_000, r);
    assert(r * (100 * 3 * 444 - 1332 * (100 - 15)) >= 100 * 3 * (1_000_000 - 1))
        by (nonlinear_arith)
        requires
            r >= 16_200,
    ;
    lemma_scaled_in_window(444, 3, 1332, 15, r);
    assert(r * (100 * 3 * 444 - 444 * (100 + 15)) >= 100 * 3 * (1_000_000 - 1) + 200_000_000)
        by (nonlinear_arith)
        requires
            r >= 16_200,
    ;
    lemma_scaled_above_window(444, 3, 444, 15, r);
    assert(r * (100 * 3 * 444 - 889 * (100 + 15)) >= 100 * 3 * (1_000_000 - 1) + 200_000_000)
        by (nonlinear_arith)
        requires
            r >= 16_200,
    ;
    lemma_scaled_above_window(444, 3, 889, 15, r);
    lemma_scaled_ticks_le(444, 3, r);
    lemma_ticks_ordered(1332, 10_000, r);
    lemma_rc6_period(c, pos);
    let bits = rc6_prefix(c, rc6_cnt(pos));
    let bits2 = rc6_collect(bits, pos, run, l);
    assert(bits2 == rc6_prefix(c, rc6_cnt(pos + run)));
    let e0: (bool, u32) = (l, (run * unit) as u32);
    let rest = rc6_events(lv, pos + run, unit);
    assert(evts == seq![e0] + rest);
    assert(evts[0] == e0);
    assert(evts.drop_first() =~= rest);
    let st = rc6_spec_event(d, e0.0, e0.1);
    if pos + run == 43 {
        assert(rc6_cnt(43) == 21);
        assert(st.1 == DecodeResult::Done(rc6_extract(bits2)));
        assert(st.0.s == Rc6State::Idle);
        assert(bits2 == rc6_prefix(c, 21));
        assert(lv[43] == !rc6_cbit(c, 21));
        if !rc6_cbit(c, 21) {
            assert(rest =~= seq![(true, unit)]);
            let st2 = rc6_spec_event(st.0, true, unit);
            assert(st2.0.s == Rc6State::Idle);
            assert(st2.1 == DecodeResult::<Rc6Command>::Idle);
            let rr = rc6_run(d, evts);
            assert(rr.1 =~= seq![st.1, st2.1]);
        } else {
            assert(rest =~= Seq::<(bool, u32)>::empty());
            let rr = rc6_run(d, evts);
            assert(rr.1 =~= seq![st.1]);
        }
    } else {
        assert(st.1 == DecodeResult::<Rc6Command>::InProgress);
        let d1 = st.0;
        assert(d1.s == (Rc6State::Run {
            pos: (pos + run) as u8,
            bits: rc6_prefix(c, rc6_cnt(pos + run)),
        }));
        lemma_rc6_steps(d1, c, pos + run);
        let rrr = rc6_run(d1, rest);
        let rr = rc6_run(d, evts);
        assert(rr.0 == rrr.0);
        assert(rr.1 =~= seq![st.1] + rrr.1);
        let n = evts.len() as int;
        let np = rest.len() as int;
        assert(n == np + 1);
        let donei = if rc6_cbit(c, 21) {
            n - 1
        } else {
            n - 2
        };
        let doneip = if rc6_cbit(c, 21) {
            np - 1
        } else {
            np - 2
        };
        assert(rrr.1[doneip] == DecodeResult::Done(rc6_extract(rc6_prefix(c, 21))));
        assert(forall|i: int| 1 <= i < n ==> #[trigger] rr.1[i] == rrr.1[i - 1]);
        assert(rr.1[donei] == DecodeResult::Done(rc6_extract(rc6_prefix(c, 21))));
        assert(forall|i: int| 0 <= i < donei ==> rr.1[i] == DecodeResult::<Rc6Command>::InProgress);
        assert(forall|i: int| donei < i < n ==> rr.1[i] == DecodeResult::<Rc6Command>::Idle);
    }
}

/// Round trip: from idle, the wire events of an encoded frame — the idle
/// gap ending at the rising edge, the leader pulse and space, then the
/// merged bi-phase periods — decode to exactly the encoded command: one
/// `Done(c)` at the completing event, a frame in flight before it, and
/// nothing after it.
pub proof fn lemma_rc6_round_trip(d: Rc6Decoder, c: Rc6Command, gap: u32)
    requires
        d.wf(),
        RC6_MIN_RATE_HZ <= d.rate,
        d.s == Rc6State::Idle,
        c.mode < 8,
    ensures
        ({
            let evts = seq![
                (false, gap),
                (true, ticks_of(RC6_LEADER_US as int, d.rate as int) as u32),
                (false, ticks_of(RC6_TWO_US as int, d.rate as int) as u32),
            ] + rc6_events(rc6_levels(c), 0, ticks_of(RC6_UNIT_US as int, d.rate as int) as u32);
            let rr = rc6_run(d, evts);
            let n = evts.len() as int;
            let donei = if rc6_cbit(c, 21) {
                n - 1
            } else {
                n - 2
            };
            &&& rr.1.len() == n
            &&& 3 <= donei < n
            &&& rr.1[donei] == DecodeResult::Done(c)
            &&& forall|i: int| 0 <= i < donei ==> rr.1[i] == DecodeResult::<Rc6Command>::InProgress
            &&& forall|i: int| donei < i < n ==> rr.1[i] == DecodeResult::<Rc6Command>::Idle
            &&& rr.0.s == Rc6State::Idle
        }),
{
    reveal_with_fuel(rc6_run, 4);
    reveal_with_fuel(rc6_prefix, 1);
    let r = d.rate as int;
    lemma_ticks_bounds(444, r);
    lemma_ticks_bounds(889, r);
    lemma_ticks_bounds(2666, r);
    let unit: u32 = ticks_of(444, r) as u32;
    let leadp: u32 = ticks_of(2666, r) as u32;
    let leads: u32 = ticks_of(889, r) as u32;
    let lv = rc6_levels(c);
    let tail = rc6_events(lv, 0, unit);
    let evts = seq![(false, gap), (true, leadp), (false, leads)] + tail;
    // The leader pulse and space sit in their own windows and below the
    // abandon threshold.
    lemma_nominal_in_window(2666, 15, r);
    lemma_nominal_in_window(889, 15, r);
    lemma_ticks_ordered(2666, 10_000, r);
    lemma_ticks_ordered(889, 10_000, r);
    let st1 = rc6_spec_event(d, false, gap);
    assert(st1.0.s == Rc6State::LeaderPulse);
    let st2 = rc6_spec_event(st1.0, true, leadp);
    assert(st2.0.s == Rc6State::LeaderSpace);
    let st3 = rc6_spec_event(st2.0, false, leads);
    assert(st3.0.s == (Rc6State::Run { pos: 0, bits: 0 }));
    assert(rc6_prefix(c, 0) == 0 && rc6_cnt(0) == 0);
    lemma_rc6_steps(st3.0, c, 0);
    lemma_rc6_extract_prefix(c);
    let rrr = rc6_run(st3.0, tail);
    let rr = rc6_run(d, evts);
    assert(evts[0] == (false, gap));
    assert(evts.drop_first() =~= seq![(true, leadp), (false, leads)] + tail);
    assert(evts.drop_first()[0] == (true, leadp));
    assert(evts.drop_first().drop_first() =~= seq![(false, leads)] + tail);
    assert(evts.drop_first().drop_first()[0] == (false, leads));
    assert(evts.drop_first().drop_first().drop_first() =~= tail);
    assert(rr.0 == rrr.0);
    assert(rr.1 =~= seq![st1.1, st2.1, st3.1] + rrr.1);
    let n = evts.len() as int;
    let np = tail.len() as int;
    assert(n == np + 3);
    let donei = if rc6_cbit(c, 21) {
        n - 1
    } else {
        n - 2
    };
    let doneip = if rc6_cbit(c, 21) {
        np - 1
    } else {
        np - 2
    };
    assert(rrr.1[doneip] == DecodeResult::Done(c));
    assert(forall|i: int| 3 <= i < n ==> #[trigger] rr.1[i] == rrr.1[i - 3]);
    assert(rr.1[donei] == DecodeResult::Done(c));
    assert(forall|i: int| 0 <= i < donei ==> rr.1[i] == DecodeResult::<Rc6Command>::InProgress);
    assert(forall|i: int| donei < i < n ==> rr.1[i] == DecodeResult::<Rc6Command>::Idle);
}

/// Collected bit `n` of the frame; exactly `rc6_cbit`.
fn rc6_cbit_exec(c: &Rc6Command, n: u32) -> (r: bool)
    requires
        1 <= n <= 21,
    ensures
        r == rc6_cbit(*c, n as int),
{
    if n == 1 {
        true
    } else if n < 5 {
        (c.mode >> ((4 - n) as u8)) & 1 == 1
    } else if n == 5 {
        c.toggle
    } else if n < 14 {
        (c.addr >> ((13 - n) as u8)) & 1 == 1
    } else {
        (c.cmd >> ((21 - n) as u8)) & 1 == 1
    }
}

/// Grid-unit level `u` of the frame; exactly `rc6_levels(*c)[u]`.
fn rc6_level_exec(c: &Rc6Command, u: u32) -> (r: bool)
    requires
        u < 44,
    ensures
        r == rc6_levels(*c)[u as int],
{
    if u < 8 {
        let b = rc6_cbit_exec(c, u / 2 + 1);
        if u % 2 == 0 {
            b
        } else {
            !b
        }
    } else if u < 12 {
        let b = rc6_cbit_exec(c, 5);
        if u < 10 {
            b
        } else {
            !b
        }
    } else {
        let b = rc6_cbit_exec(c, (u - 12) / 2 + 6);
        if (u - 12) % 2 == 0 {
            b
        } else {
            !b
        }
    }
}

/// The wire events of the bi-phase section alternate levels, starting
/// with the level at the position where the generator begins.
#[verifier::rlimit(60)]
proof fn lemma_rc6_events_alt(c: Rc6Command, i: int, unit: u32)
    requires
        0 <= i <= 44,
        i != 9,
        i != 11,
    ensures
        ({
            let lv = rc6_levels(c);
            let evts = rc6_events(lv, i, unit);
            forall|e: int|
                0 <= e < evts.len() ==> (#[trigger] evts[e]).0 == (if e % 2 == 0 {
                    i < 44 && lv[i]
                } else {
                    !lv[i]
                })
        }),
    decreases 44 - i,
{
    reveal_with_fuel(rc6_events, 3);
    let lv = rc6_levels(c);
    let evts = rc6_events(lv, i, unit);
    if i >= 44 {
    } else if i == 43 {
        assert(rc6_events(lv, 44, unit) =~= Seq::<(bool, u32)>::empty());
    } else {
        let l = lv[i];
        let run = rc6_runlen(lv, i);
        lemma_rc6_period(c, i);
        if i + run >= 44 && !l {
        } else {
            let rest = rc6_events(lv, i + run, unit);
            assert(evts == seq![(l, (run * unit) as u32)] + rest);
            lemma_rc6_events_alt(c, i + run, unit);
            assert(forall|e: int| 1 <= e < evts.len() ==> #[trigger] evts[e] == rest[e - 1]);
        }
    }
}

/// Append the durations of the bi-phase wire events from unit `i` on.
fn rc6_emit(c: &Rc6Command, i: u32, unit: u32, v: &mut Vec<u32>)
    requires
        i <= 44,
        i != 9,
        i != 11,
        unit <= 1_000_000,
    ensures
        final(v)@ == old(v)@ + event_durations(rc6_events(rc6_levels(*c), i as int, unit)),
    decreases 44 - i,
{
    proof {
        reveal_with_fuel(rc6_events, 2);
    }
    let ghost lv = rc6_levels(*c);
    if i >= 44 {
        proof {
            assert(v@ =~= old(v)@ + event_durations(rc6_events(lv, i as int, unit)));
        }
        return ;
    }
    let l = rc6_level_exec(c, i);
    let run: u32 = if i + 1 < 44 && rc6_level_exec(c, i + 1) == l {
        if i + 2 < 44 && rc6_level_exec(c, i + 2) == l {
            3
        } else {
            2
        }
    } else {
        1
    };
    proof {
        assert(run == rc6_runlen(lv, i as int));
        if i as int != 43 {
            lemma_rc6_period(*c, i as int);
        }
    }
    if i + run >= 44 && !l {
        proof {
            assert(v@ =~= old(v)@ + event_durations(rc6_events(lv, i as int, unit)));
        }
    } else {
        let ghost rest = rc6_events(lv, i as int + run as int, unit);
        proof {
            assert(rc6_events(lv, i as int, unit) == seq![(l, (run * unit) as u32)] + rest);
        }
        v.push(run * unit);
        rc6_emit(c, i + run, unit, v);
        proof {
            let evts = rc6_events(lv, i as int, unit);
            assert(forall|e: int| 1 <= e < evts.len() ==> #[trigger] evts[e] == rest[e - 1]);
            assert(v@ =~= old(v)@ + event_durations(evts));
        }
    }
}

/// Encode one frame into an interval buffer whose events are exactly the
/// frame's wire events at the given rate: the leader pulse and space, then
/// the merged bi-phase periods, without the trailing carrier-off half.
pub fn rc6_encode(c: &Rc6Command, rate: u32) -> (b: IntervalBuffer)
    requires
        1 <= rate <= 1_000_000,
    ensures
        events_of_intervals(b@) == seq![
            (true, ticks_of(RC6_LEADER_US as int, rate as int) as u32),
            (false, ticks_of(RC6_TWO_US as int, rate as int) as u32),
        ] + rc6_events(rc6_levels(*c), 0, ticks_of(RC6_UNIT_US as int, rate as int) as u32),
{
    let unit = ticks(RC6_UNIT_US, rate);
    let mut v: Vec<u32> = Vec::new();
    v.push(ticks(RC6_LEADER_US, rate));
    v.push(ticks(RC6_TWO_US, rate));
    rc6_emit(c, 0, unit, &mut v);
    proof {
        let lv = rc6_levels(*c);
        let evts = rc6_events(lv, 0, unit);
        let head = seq![
            (true, ticks_of(RC6_LEADER_US as int, rate as int) as u32),
            (false, ticks_of(RC6_TWO_US as int, rate as int) as u32),
        ];
        lemma_rc6_events_alt(*c, 0, unit);
        assert(lv[0] == rc6_cbit(*c, 1));
        assert forall|e: int| 0 <= e < 2 + evts.len() implies events_of_intervals(v@)[e] == (head
            + evts)[e] by {
            if e >= 2 {
                assert((head + evts)[e] == evts[e - 2]);
                assert(evts[e - 2].0 == ((e - 2) % 2 == 0));
                assert(v@[e] == evts[e - 2].1);
            }
        }
        assert(events_of_intervals(v@) =~= head + evts);
    }
    IntervalBuffer { intervals: v }
}
} // verus!
