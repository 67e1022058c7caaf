//! The RC-5 protocol: bi-phase (Manchester) coding with an 889 µs half-bit.
//!
//! A frame is 14 bits, MSB first: a fixed start bit (1), a second start
//! bit, the toggle bit, 5 address bits and 6 command bits. A 1 is sent as
//! (space, mark), a 0 as (mark, space), each half 889 µs. Adjacent equal
//! half-bits merge into one 1778 µs period on the wire; the leading space
//! half of the first start bit merges with the idle gap, so a frame begins
//! at a rising edge and the decoder counts half-bit positions from there.

use vstd::prelude::*;
use crate::cmd::{DecodeResult, DecoderError, Rc5Command};
use crate::range::{
    lemma_nominal_in_window, lemma_scaled_above_window, lemma_scaled_in_window,
    lemma_scaled_ticks_le, lemma_ticks_bounds, lemma_ticks_ordered, ticks, ticks_of, TickRange,
};
use crate::stream::{event_durations, events_of_intervals, IntervalBuffer};

verus! {

/// Nominal half-bit duration in microseconds.
pub const RC5_UNIT_US: u32 = 889;

/// Tolerance applied around the half-bit multiples, in percent.
pub const RC5_TOL_PCT: u32 = 25;

/// A duration longer than this many microseconds abandons a frame: a
/// long quiet line means the transmission is over.
pub const RC5_TIMEOUT_US: u32 = 4_000;

/// The lowest sampling rate the round-trip and rate-invariance theorems
/// cover. Resolving the 889 µs half-bit needs 2.25 kHz; the stated bound
/// is higher because the 25%-widened windows for one and two half-bits
/// must also stay apart after the tick conversion rounds down.
pub const RC5_MIN_RATE_HZ: u32 = 6_000;

/// Bit `k` of the 14-bit frame, MSB first: start, start, toggle, 5 address
/// bits, 6 command bits.
pub open spec fn rc5_bit(c: Rc5Command, k: int) -> bool {
    if k == 0 {
        true
    } else if k == 1 {
        c.start
    } else if k == 2 {
        c.toggle
    } else if 3 <= k < 8 {
        (c.addr >> ((7 - k) as u8)) & 1 == 1
    } else {
        (c.cmd >> ((13 - k) as u8)) & 1 == 1
    }
}

/// The 28 half-bit levels of a frame (true is carrier-on): a 1 bit is
/// (off, on), a 0 bit is (on, off).
pub open spec fn rc5_levels(c: Rc5Command) -> Seq<bool> {
    Seq::new(28, |j: int| if j % 2 == 0 { !rc5_bit(c, j / 2) } else { rc5_bit(c, j / 2) })
}

/// The (level, duration) events seen on the wire for the half-bits from
/// position `i` on: runs of equal level merge into one period of up to two
/// units, and a trailing carrier-off period folds into the idle gap.
pub open spec fn rc5_events(lv: Seq<bool>, i: int, unit: u32) -> Seq<(bool, u32)>
    decreases lv.len() - i,
{
    if i < 0 || i >= lv.len() {
        Seq::empty()
    } else {
        let l = lv[i];
        let run: int = if i + 1 < lv.len() && lv[i + 1] == l {
            2
        } else {
            1
        };
        if i + run >= lv.len() && !l {
            Seq::empty()
        } else {
            seq![(l, (run * unit) as u32)] + rc5_events(lv, i + run, unit)
        }
    }
}

/// The collected payload bits b1..b13, MSB first, as accumulated by the
/// decoder: each new bit is shifted in at the bottom.
pub open spec fn rc5_prefix(c: Rc5Command, n: int) -> u16
    decreases n,
{
    if n <= 0 {
        0u16
    } else {
        (rc5_prefix(c, n - 1) << 1) | (if rc5_bit(c, n) {
            1u16
        } else {
            0u16
        })
    }
}

/// Split the 13 collected bits into the command's fields.
pub open spec fn rc5_extract(bits: u16) -> Rc5Command {
    Rc5Command {
        addr: ((bits >> 6) & 0x1F) as u8,
        cmd: (bits & 0x3F) as u8,
        toggle: (bits >> 11) & 1 == 1,
        start: (bits >> 12) & 1 == 1,
    }
}

/// Where the decoder stands inside a frame.
#[derive(Clone, Copy, Debug, PartialEq, Eq, Structural)]
pub enum Rc5State {
    Idle,
    /// `pos` is the next half-bit position to fill (the frame began at the
    /// rising edge in front of position 1); `bits` are the payload bits
    /// collected so far, MSB first.
    Running { pos: u8, bits: u16 },
}

/// An RC-5 decoder: period windows for one and two half-bit units, the
/// abandon threshold, and the current state.
#[derive(Clone, Copy, Debug)]
pub struct Rc5Decoder {
    pub one: TickRange,
    pub two: TickRange,
    pub max: u32,
    pub rate: u32,
    pub s: Rc5State,
}

/// The decoder after one event, and what that event produced. A space
/// ending in idle is a rising edge and starts a frame; a period is one or
/// two half-bit units; each half-bit at an even position determines one
/// payload bit (the inverse of the period's level); the frame completes
/// when position 27 is reached.
pub open spec fn rc5_spec_event(d: Rc5Decoder, mark: bool, dur: u32) -> (
    Rc5Decoder,
    DecodeResult<Rc5Command>,
) {
    match d.s {
        Rc5State::Idle => {
            if !mark {
                (
                    Rc5Decoder { s: Rc5State::Running { pos: 1, bits: 0 }, ..d },
                    DecodeResult::InProgress,
                )
            } else {
                (d, DecodeResult::Idle)
            }
        },
        Rc5State::Running { pos, bits } => {
            if dur > d.max {
                (Rc5Decoder { s: Rc5State::Idle, ..d }, DecodeResult::Idle)
            } else {
                let u: u8 = if d.one.spec_contains(dur as int) {
                    1
                } else if d.two.spec_contains(dur as int) {
                    2
                } else {
                    0
                };
                if u == 0 || (pos % 2 == 0 && u == 2) {
                    (Rc5Decoder { s: Rc5State::Idle, ..d }, DecodeResult::Failed(
                        DecoderError::Timing,
                    ))
                } else {
                    let bits2: u16 = if pos % 2 == 0 || u == 2 {
                        (bits << 1) | (if mark {
                            0u16
                        } else {
                            1u16
                        })
                    } else {
                        bits
                    };
                    let pos2: u8 = (pos + u) as u8;
                    if pos2 >= 27 {
                        (Rc5Decoder { s: Rc5State::Idle, ..d }, DecodeResult::Done(
                            rc5_extract(bits2),
                        ))
                    } else {
                        (
                            Rc5Decoder { s: Rc5State::Running { pos: pos2, bits: bits2 }, ..d },
                            DecodeResult::InProgress,
                        )
                    }
                }
            }
        },
    }
}

impl Rc5Decoder {
    pub open spec fn wf(self) -> bool {
        &&& 1 <= self.rate <= 1_000_000
        &&& self.one.is_window(RC5_UNIT_US as int, RC5_TOL_PCT as int, self.rate as int)
        &&& self.two.is_window(2 * RC5_UNIT_US as int, RC5_TOL_PCT as int, self.rate as int)
        &&& self.max == ticks_of(RC5_TIMEOUT_US as int, self.rate as int)
        &&& (self.s matches Rc5State::Running { pos, .. } ==> 1 <= pos <= 26)
    }

    /// Build a decoder whose events will be measured in ticks of `rate`
    /// per second; the one- and two-unit windows are precomputed here.
    pub fn new(rate: u32) -> (r: Rc5Decoder)
        requires
            1 <= rate <= 1_000_000,
        ensures
            r.wf(),
            r.rate == rate,
            r.s == Rc5State::Idle,
    {
        Rc5Decoder {
            one: TickRange::new(RC5_UNIT_US, RC5_TOL_PCT, rate),
            two: TickRange::new(2 * RC5_UNIT_US, RC5_TOL_PCT, rate),
            max: ticks(RC5_TIMEOUT_US, rate),
            rate,
            s: Rc5State::Idle,
        }
    }

    /// Feed the decoder the level that just ended (`mark` is carrier-on)
    /// and its duration in ticks.
    pub fn event(&mut self, mark: bool, dur: u32) -> (r: DecodeResult<Rc5Command>)
        requires
            old(self).wf(),
        ensures
            final(self).wf(),
            (*final(self), r) == rc5_spec_event(*old(self), mark, dur),
    {
        match self.s {
            Rc5State::Idle => {
                if !mark {
                    self.s = Rc5State::Running { pos: 1, bits: 0 };
                    DecodeResult::InProgress
                } else {
                    DecodeResult::Idle
                }
            },
            Rc5State::Running { pos, bits } => {
                if dur > self.max {
                    self.s = Rc5State::Idle;
                    DecodeResult::Idle
                } else {
                    let u: u8 = if self.one.contains(dur) {
                        1
                    } else if self.two.contains(dur) {
                        2
                    } else {
                        0
                    };
                    if u == 0 || (pos % 2 == 0 && u == 2) {
                        self.s = Rc5State::Idle;
                        DecodeResult::Failed(DecoderError::Timing)
                    } else {
                        let bits2: u16 = if pos % 2 == 0 || u == 2 {
                            (bits << 1) | (if mark {
                                0u16
                            } else {
                                1u16
                            })
                        } else {
                            bits
                        };
                        let pos2: u8 = pos + u;
                        if pos2 >= 27 {
                            self.s = Rc5State::Idle;
                            DecodeResult::Done(rc5_extract_exec(bits2))
                        } else {
                            self.s = Rc5State::Running { pos: pos2, bits: bits2 };
                            DecodeResult::InProgress
                        }
                    }
                }
            },
        }
    }
}

/// Split the collected bits into the command's fields; exactly
/// `rc5_extract`.
pub fn rc5_extract_exec(bits: u16) -> (r: Rc5Command)
    ensures
        r == rc5_extract(bits),
{
    proof {
        assert((bits >> 6) & 0x1F < 32 && bits & 0x3F < 64) by (bit_vector);
    }
    Rc5Command {
        addr: ((bits >> 6) & 0x1F) as u8,
        cmd: (bits & 0x3F) as u8,
        toggle: (bits >> 11) & 1 == 1,
        start: (bits >> 12) & 1 == 1,
    }
}

/// Run a decoder over a sequence of (mark, duration) events.
pub open spec fn rc5_run(d: Rc5Decoder, evts: Seq<(bool, u32)>) -> (
    Rc5Decoder,
    Seq<DecodeResult<Rc5Command>>,
)
    decreases evts.len(),
{
    if evts.len() == 0 {
        (d, Seq::empty())
    } else {
        let first = rc5_spec_event(d, evts[0].0, evts[0].1);
        let rest = rc5_run(first.0, evts.drop_first());
        (rest.0, seq![first.1] + rest.1)
    }
}

/// The bits the decoder collects from a frame are the command's fields:
/// extracting them undoes the accumulation, for commands whose address and
/// command fit their 5- and 6-bit fields.
pub proof fn lemma_rc5_extract_prefix(c: Rc5Command)
    requires
        c.addr < 32,
        c.cmd < 64,
    ensures
        rc5_extract(rc5_prefix(c, 13)) == c,
{
    let a = c.addr;
    let m = c.cmd;
    let s = c.start;
    let t = c.toggle;
    let b = rc5_prefix(c, 13);
    let q1: u16 = (0u16 << 1) | (if s { 1 } else { 0 });
    let q2: u16 = (q1 << 1) | (if t { 1 } else { 0 });
    let q3: u16 = (q2 << 1) | (if (a >> 4) & 1 == 1 { 1 } else { 0 });
    let q4: u16 = (q3 << 1) | (if (a >> 3) & 1 == 1 { 1 } else { 0 });
    let q5: u16 = (q4 << 1) | (if (a >> 2) & 1 == 1 { 1 } else { 0 });
    let q6: u16 = (q5 << 1) | (if (a >> 1) & 1 == 1 { 1 } else { 0 });
    let q7: u16 = (q6 << 1) | (if (a >> 0) & 1 == 1 { 1 } else { 0 });
    let q8: u16 = (q7 << 1) | (if (m >> 5) & 1 == 1 { 1 } else { 0 });
    let q9: u16 = (q8 << 1) | (if (m >> 4) & 1 == 1 { 1 } else { 0 });
    let q10: u16 = (q9 << 1) | (if (m >> 3) & 1 == 1 { 1 } else { 0 });
    let q11: u16 = (q10 << 1) | (if (m >> 2) & 1 == 1 { 1 } else { 0 });
    let q12: u16 = (q11 << 1) | (if (m >> 1) & 1 == 1 { 1 } else { 0 });
    let q13: u16 = (q12 << 1) | (if (m >> 0) & 1 == 1 { 1 } else { 0 });
    assert(b == q13) by {
        reveal_with_fuel(rc5_prefix, 14);
    }
    assert(((q13 >> 6) & 0x1F) as u8 == a && (q13 & 0x3F) as u8 == m && ((q13 >> 11) & 1 == 1)
        == t && ((q13 >> 12) & 1 == 1) == s) by (bit_vector)
        requires
            a < 32,
            m < 64,
            q1 == (0u16 << 1) | (if s { 1u16 } else { 0u16 }),
            q2 == (q1 << 1) | (if t { 1u16 } else { 0u16 }),
            q3 == (q2 << 1) | (if (a >> 4) & 1 == 1 { 1u16 } else { 0u16 }),
            q4 == (q3 << 1) | (if (a >> 3) & 1 == 1 { 1u16 } else { 0u16 }),
            q5 == (q4 << 1) | (if (a >> 2) & 1 == 1 { 1u16 } else { 0u16 }),
            q6 == (q5 << 1) | (if (a >> 1) & 1 == 1 { 1u16 } else { 0u16 }),
            q7 == (q6 << 1) | (if (a >> 0) & 1 == 1 { 1u16 } else { 0u16 }),
            q8 == (q7 << 1) | (if (m >> 5) & 1 == 1 { 1u16 } else { 0u16 }),
            q9 == (q8 << 1) | (if (m >> 4) & 1 == 1 { 1u16 } else { 0u16 }),
            q10 == (q9 << 1) | (if (m >> 3) & 1 == 1 { 1u16 } else { 0u16 }),
            q11 == (q10 << 1) | (if (m >> 2) & 1 == 1 { 1u16 } else { 0u16 }),
            q12 == (q11 << 1) | (if (m >> 1) & 1 == 1 { 1u16 } else { 0u16 }),
            q13 == (q12 << 1) | (if (m >> 0) & 1 == 1 { 1u16 } else { 0u16 }),
    ;
}

/// A run produces one result per event.
pub proof fn lemma_rc5_run_len(d: Rc5Decoder, evts: Seq<(bool, u32)>)
    ensures
        rc5_run(d, evts).1.len() == evts.len(),
    decreases evts.len(),
{
    if evts.len() > 0 {
        lemma_rc5_run_len(rc5_spec_event(d, evts[0].0, evts[0].1).0, evts.drop_first());
    }
}

/// Every wire period of a frame lasts at most two half-bit units.
pub proof fn lemma_rc5_events_dur_bound(lv: Seq<bool>, i: int, unit: u32)
    requires
        unit <= 1_000_000,
    ensures
        forall|e: int|
            0 <= e < rc5_events(lv, i, unit).len() ==> (#[trigger] rc5_events(lv, i, unit)[e]).1
                <= 2 * unit,
    decreases lv.len() - i,
{
    reveal_with_fuel(rc5_events, 2);
    if 0 <= i < lv.len() {
        let l = lv[i];
        let run: int = if i + 1 < lv.len() && lv[i + 1] == l {
            2
        } else {
            1
        };
        if i + run >= lv.len() && !l {
        } else {
            let evts = rc5_events(lv, i, unit);
            let rest = rc5_events(lv, i + run, unit);
            assert(evts == seq![(l, (run * unit) as u32)] + rest);
            lemma_rc5_events_dur_bound(lv, i + run, unit);
            assert(forall|e: int| 1 <= e < evts.len() ==> #[trigger] evts[e] == rest[e - 1]);
        }
    }
}

/// Mid-frame induction for the round trip: from half-bit position `pos`
/// with the matching bits collected, the rest of the wire events drive the
/// decoder to completion. The completing event is the last one, unless the
/// frame ends with a carrier-on half-bit, whose trailing period arrives
/// after completion and is ignored in idle.
#[verifier::rlimit(60)]
proof fn lemma_rc5_steps(d: Rc5Decoder, c: Rc5Command, pos: int)
    requires
        d.wf(),
        RC5_MIN_RATE_HZ <= d.rate,
        1 <= pos <= 26,
        d.s == (Rc5State::Running { pos: pos as u8, bits: rc5_prefix(c, (pos - 1) / 2) }),
    ensures
        ({
            let evts = rc5_events(
                rc5_levels(c),
                pos,
                ticks_of(RC5_UNIT_US as int, d.rate as int) as u32,
            );
            let rr = rc5_run(d, evts);
            let n = evts.len() as int;
            let donei = if rc5_bit(c, 13) {
                n - 2
            } else {
                n - 1
            };
            &&& rr.1.len() == n
            &&& 0 <= donei < n
            &&& rr.1[donei] == DecodeResult::Done(rc5_extract(rc5_prefix(c, 13)))
            &&& forall|i: int| 0 <= i < donei ==> rr.1[i] == DecodeResult::<Rc5Command>::InProgress
            &&& forall|i: int| donei < i < n ==> rr.1[i] == DecodeResult::<Rc5Command>::Idle
            &&& rr.0.s == Rc5State::Idle
        }),
    decreases 28 - pos,
{
    reveal_with_fuel(rc5_run, 4);
    reveal_with_fuel(rc5_events, 4);
    let r = d.rate as int;
    lemma_ticks_bounds(889, r);
    let unit: u32 = ticks_of(889, r) as u32;
    let lv = rc5_levels(c);
    let evts = rc5_events(lv, pos, unit);
    let l = lv[pos];
    let run: int = if pos + 1 < 28 && lv[pos + 1] == l {
        2
    } else {
        1
    };
    // A one-unit period sits in the one-unit window, a two-unit period in
    // the two-unit window and above the one-unit window, and both stay
    // below the abandon threshold.
    lemma_nominal_in_window(889, 25, r);
    lemma_ticks_ordered(889, 4_000, r);
    assert(r * (100 * 2 * 889 - 1778 * (100 - 25)) >= 100 * 2 * (1_000_000 - 1))
        by (nonlinear_arith)
        requires
            r >= 6_000,
    ;
    lemma_scaled_in_window(889, 2, 1778, 25, r);
    assert(r * (100 * 2 * 889 - 889 * (100 + 25)) >= 100 * 2 * (1_000_000 - 1) + 200_000_000)
        by (nonlinear_arith)
        requires
            r >= 6_000,
    ;
    lemma_scaled_above_window(889, 2, 889, 25, r);
    lemma_scaled_ticks_le(889, 2, r);
    lemma_ticks_ordered(1778, 4_000, r);
    // A period starting at an even position is always one unit: the two
    // halves of a bit carry opposite levels.
    if pos % 2 == 0 {
        assert(lv[pos] == !rc5_bit(c, pos / 2));
        assert(lv[pos + 1] == rc5_bit(c, (pos + 1) / 2));
        assert((pos + 1) / 2 == pos / 2);
        assert(run == 1);
    }
    assert(pos + run <= 27);
    let e0: (bool, u32) = (l, (run * unit) as u32);
    let rest = rc5_events(lv, pos + run, unit);
    assert(evts == seq![e0] + rest);
    assert(evts[0] == e0);
    assert(evts.drop_first() =~= rest);
    let st = rc5_spec_event(d, e0.0, e0.1);
    let bits = rc5_prefix(c, (pos - 1) / 2);
    // The decoder classifies the period as exactly `run` units.
    let bits2: u16 = if pos % 2 == 0 || run == 2 {
        (bits << 1) | (if l {
            0u16
        } else {
            1u16
        })
    } else {
        bits
    };
    assert(bits2 == rc5_prefix(c, (pos + run - 1) / 2)) by {
        if pos % 2 == 0 {
            assert(l == !rc5_bit(c, pos / 2));
            assert((pos - 1) / 2 == pos / 2 - 1);
            assert((pos + run - 1) / 2 == pos / 2);
        } else if run == 2 {
            assert(lv[pos + 1] == l);
            assert(lv[pos + 1] == !rc5_bit(c, (pos + 1) / 2));
            assert((pos + run - 1) / 2 == (pos + 1) / 2);
            assert((pos + 1) / 2 == (pos - 1) / 2 + 1);
        } else {
            assert((pos + run - 1) / 2 == (pos - 1) / 2);
        }
    }
    if pos + run == 27 {
        assert(st.1 == DecodeResult::Done(rc5_extract(bits2)));
        assert(st.0.s == Rc5State::Idle);
        assert(bits2 == rc5_prefix(c, 13));
        // The tail after completion: one ignored carrier-on period, or
        // nothing if the last half-bit is carrier-off.
        assert(lv[27] == rc5_bit(c, 13));
        if rc5_bit(c, 13) {
            assert(rest =~= seq![(true, unit)]);
            let st2 = rc5_spec_event(st.0, true, unit);
            assert(st2.0.s == Rc5State::Idle);
            assert(st2.1 == DecodeResult::<Rc5Command>::Idle);
            let rr = rc5_run(d, evts);
            assert(rr.1 =~= seq![st.1, st2.1]);
        } else {
            assert(rest =~= Seq::<(bool, u32)>::empty());
            let rr = rc5_run(d, evts);
            assert(rr.1 =~= seq![st.1]);
        }
    } else {
        assert(st.1 == DecodeResult::<Rc5Command>::InProgress);
        let d1 = st.0;
        assert(d1.s == (Rc5State::Running {
            pos: (pos + run) as u8,
            bits: rc5_prefix(c, (pos + run - 1) / 2),
        }));
        lemma_rc5_steps(d1, c, pos + run);
        let rrr = rc5_run(d1, rest);
        let rr = rc5_run(d, evts);
        assert(rr.0 == rrr.0);
        assert(rr.1 =~= seq![st.1] + rrr.1);
        let n = evts.len() as int;
        let np = rest.len() as int;
        assert(n == np + 1);
        let donei = if rc5_bit(c, 13) {
            n - 2
        } else {
            n - 1
        };
        let doneip = if rc5_bit(c, 13) {
            np - 2
        } else {
            np - 1
        };
        assert(rrr.1[doneip] == DecodeResult::Done(rc5_extract(rc5_prefix(c, 13))));
        assert(forall|i: int| 1 <= i < n ==> #[trigger] rr.1[i] == rrr.1[i - 1]);
        assert(rr.1[donei] == DecodeResult::Done(rc5_extract(rc5_prefix(c, 13))));
        assert(forall|i: int| 0 <= i < donei ==> rr.1[i] == DecodeResult::<Rc5Command>::InProgress);
        assert(forall|i: int| donei < i < n ==> rr.1[i] == DecodeResult::<Rc5Command>::Idle);
    }
}

/// Round trip: from idle, the wire events of an encoded frame — the idle
/// gap ending at the frame's rising edge, then the merged bi-phase
/// periods — decode to exactly the encoded command: one `Done(c)` at the
/// completing event, a frame in flight before it, and nothing after it.
pub proof fn lemma_rc5_round_trip(d: Rc5Decoder, c: Rc5Command, gap: u32)
    requires
        d.wf(),
        RC5_MIN_RATE_HZ <= d.rate,
        d.s == Rc5State::Idle,
        c.addr < 32,
        c.cmd < 64,
    ensures
        ({
            let evts = seq![(false, gap)] + rc5_events(
                rc5_levels(c),
                1,
                ticks_of(RC5_UNIT_US as int, d.rate as int) as u32,
            );
            let rr = rc5_run(d, evts);
            let n = evts.len() as int;
            let donei = if rc5_bit(c, 13) {
                n - 2
            } else {
                n - 1
            };
            &&& rr.1.len() == n
            &&& 1 <= donei < n
            &&& rr.1[donei] == DecodeResult::Done(c)
            &&& forall|i: int| 0 <= i < donei ==> rr.1[i] == DecodeResult::<Rc5Command>::InProgress
            &&& forall|i: int| donei < i < n ==> rr.1[i] == DecodeResult::<Rc5Command>::Idle
            &&& rr.0.s == Rc5State::Idle
        }),
{
    reveal_with_fuel(rc5_run, 2);
    reveal_with_fuel(rc5_prefix, 1);
    let r = d.rate as int;
    lemma_ticks_bounds(889, r);
    let unit: u32 = ticks_of(889, r) as u32;
    let lv = rc5_levels(c);
    let tail = rc5_events(lv, 1, unit);
    let evts = seq![(false, gap)] + tail;
    assert(evts[0] == (false, gap));
    assert(evts.drop_first() =~= tail);
    let st = rc5_spec_event(d, false, gap);
    assert(st.0.s == (Rc5State::Running { pos: 1, bits: 0 }));
    assert(st.1 == DecodeResult::<Rc5Command>::InProgress);
    assert(rc5_prefix(c, 0) == 0);
    lemma_rc5_steps(st.0, c, 1);
    lemma_rc5_extract_prefix(c);
    let rrr = rc5_run(st.0, tail);
    let rr = rc5_run(d, evts);
    assert(rr.0 == rrr.0);
    assert(rr.1 =~= seq![st.1] + rrr.1);
    let n = evts.len() as int;
    let np = tail.len() as int;
    let donei = if rc5_bit(c, 13) {
        n - 2
    } else {
        n - 1
    };
    let doneip = if rc5_bit(c, 13) {
        np - 2
    } else {
        np - 1
    };
    assert(rrr.1[doneip] == DecodeResult::Done(c));
    assert(forall|i: int| 1 <= i < n ==> #[trigger] rr.1[i] == rrr.1[i - 1]);
    assert(rr.1[donei] == DecodeResult::Done(c));
    assert(forall|i: int| 0 <= i < donei ==> rr.1[i] == DecodeResult::<Rc5Command>::InProgress);
    assert(forall|i: int| donei < i < n ==> rr.1[i] == DecodeResult::<Rc5Command>::Idle);
}

/// Rate invariance: two decoders built at different sufficient sampling
/// rates, each fed the same frame as measured in its own time base,
/// decode the same command.
pub proof fn lemma_rc5_rate_invariance(
    d1: Rc5Decoder,
    d2: Rc5Decoder,
    c: Rc5Command,
    gap1: u32,
    gap2: u32,
)
    requires
        d1.wf(),
        d2.wf(),
        RC5_MIN_RATE_HZ <= d1.rate,
        RC5_MIN_RATE_HZ <= d2.rate,
        d1.s == Rc5State::Idle,
        d2.s == Rc5State::Idle,
        c.addr < 32,
        c.cmd < 64,
    ensures
        ({
            let e1 = seq![(false, gap1)] + rc5_events(
                rc5_levels(c),
                1,
                ticks_of(RC5_UNIT_US as int, d1.rate as int) as u32,
            );
            let e2 = seq![(false, gap2)] + rc5_events(
                rc5_levels(c),
                1,
                ticks_of(RC5_UNIT_US as int, d2.rate as int) as u32,
            );
            let k1 = if rc5_bit(c, 13) {
                e1.len() - 2
            } else {
                e1.len() - 1
            };
            let k2 = if rc5_bit(c, 13) {
                e2.len() - 2
            } else {
                e2.len() - 1
            };
            &&& rc5_run(d1, e1).1[k1 as int] == rc5_run(d2, e2).1[k2 as int]
            &&& rc5_run(d1, e1).1[k1 as int] == DecodeResult::Done(c)
        }),
{
    lemma_rc5_round_trip(d1, c, gap1);
    lemma_rc5_round_trip(d2, c, gap2);
}

/// Determinism: the same state and the same events give the same outputs.
pub proof fn lemma_rc5_deterministic(d1: Rc5Decoder, d2: Rc5Decoder, evts: Seq<(bool, u32)>)
    requires
        d1 == d2,
    ensures
        rc5_run(d1, evts) == rc5_run(d2, evts),
{
}

/// Idle recovery: while a frame is in flight, an overlong duration
/// abandons it and returns the decoder to idle.
pub proof fn lemma_rc5_idle_recovery(d: Rc5Decoder, mark: bool, dur: u32)
    requires
        d.s is Running,
        dur > d.max,
    ensures
        rc5_spec_event(d, mark, dur).0.s == Rc5State::Idle,
        rc5_spec_event(d, mark, dur).1 == DecodeResult::<Rc5Command>::Idle,
{
}

/// Bit `k` of the frame; exactly `rc5_bit`.
fn rc5_bit_exec(c: &Rc5Command, k: u32) -> (r: bool)
    requires
        k < 14,
    ensures
        r == rc5_bit(*c, k as int),
{
    if k == 0 {
        true
    } else if k == 1 {
        c.start
    } else if k == 2 {
        c.toggle
    } else if k < 8 {
        (c.addr >> ((7 - k) as u8)) & 1 == 1
    } else {
        (c.cmd >> ((13 - k) as u8)) & 1 == 1
    }
}

/// Half-bit level `j` of the frame; exactly `rc5_levels(*c)[j]`.
fn rc5_level_exec(c: &Rc5Command, j: u32) -> (r: bool)
    requires
        j < 28,
    ensures
        r == rc5_levels(*c)[j as int],
{
    let b = rc5_bit_exec(c, j / 2);
    if j % 2 == 0 {
        !b
    } else {
        b
    }
}

/// The wire events alternate levels, starting with the level at the
/// position where the generator begins.
proof fn lemma_rc5_events_alt(c: Rc5Command, i: int, unit: u32)
    requires
        1 <= i <= 28,
    ensures
        ({
            let lv = rc5_levels(c);
            let evts = rc5_events(lv, i, unit);
            forall|e: int|
                0 <= e < evts.len() ==> (#[trigger] evts[e]).0 == (if e % 2 == 0 {
                    i < 28 && lv[i]
                } else {
                    !lv[i]
                })
        }),
    decreases 28 - i,
{
    reveal_with_fuel(rc5_events, 2);
    let lv = rc5_levels(c);
    let evts = rc5_events(lv, i, unit);
    if i >= 28 {
    } else {
        let l = lv[i];
        let run: int = if i + 1 < 28 && lv[i + 1] == l {
            2
        } else {
            1
        };
        if i + run >= 28 && !l {
        } else {
            let rest = rc5_events(lv, i + run, unit);
            assert(evts == seq![(l, (run * unit) as u32)] + rest);
            lemma_rc5_events_alt(c, i + run, unit);
            // The next period starts on the opposite level.
            if i + run < 28 {
                if run == 1 {
                    assert(lv[i + 1] != l);
                } else {
                    // A two-unit run starts mid-bit: the next half-bit
                    // opens the following bit with the opposite level.
                    if i % 2 == 0 {
                        assert(lv[i] == !rc5_bit(c, i / 2));
                        assert(lv[i + 1] == rc5_bit(c, (i + 1) / 2));
                        assert((i + 1) / 2 == i / 2);
                        assert(false);
                    } else {
                        assert(lv[i + 1] == !rc5_bit(c, (i + 1) / 2));
                        assert(lv[i + 2] == rc5_bit(c, (i + 2) / 2));
                        assert((i + 2) / 2 == (i + 1) / 2);
                        assert(lv[i + 2] == !l);
                    }
                }
            }
            assert(forall|e: int| 1 <= e < evts.len() ==> #[trigger] evts[e] == rest[e - 1]);
        }
    }
}

/// Append the durations of the wire events from half-bit `i` on.
fn rc5_emit(c: &Rc5Command, i: u32, unit: u32, v: &mut Vec<u32>)
    requires
        1 <= i <= 28,
        unit <= 1_000_000,
    ensures
        final(v)@ == old(v)@ + event_durations(rc5_events(rc5_levels(*c), i as int, unit)),
    decreases 28 - i,
{
    proof {
        reveal_with_fuel(rc5_events, 2);
    }
    let ghost lv = rc5_levels(*c);
    if i >= 28 {
        proof {
            assert(v@ =~= old(v)@ + event_durations(rc5_events(lv, i as int, unit)));
        }
        return ;
    }
    let l = rc5_level_exec(c, i);
    let run: u32 = if i + 1 < 28 && rc5_level_exec(c, i + 1) == l {
        2
    } else {
        1
    };
    if i + run >= 28 && !l {
        proof {
            assert(v@ =~= old(v)@ + event_durations(rc5_events(lv, i as int, unit)));
        }
    } else {
        let ghost rest = rc5_events(lv, i as int + run as int, unit);
        proof {
            assert(rc5_events(lv, i as int, unit) == seq![(l, (run * unit) as u32)] + rest);
        }
        v.push(run * unit);
        rc5_emit(c, i + run, unit, v);
        proof {
            let evts = rc5_events(lv, i as int, unit);
            assert(forall|e: int| 1 <= e < evts.len() ==> #[trigger] evts[e] == rest[e - 1]);
            assert(v@ =~= old(v)@ + event_durations(evts));
        }
    }
}

/// Encode one frame into an interval buffer whose events are exactly the
/// frame's wire events at the given rate: the merged bi-phase periods from
/// the first rising edge, without the trailing carrier-off period.
pub fn rc5_encode(c: &Rc5Command, rate: u32) -> (b: IntervalBuffer)
    requires
        1 <= rate <= 1_000_000,
    ensures
        events_of_intervals(b@) == rc5_events(
            rc5_levels(*c),
            1,
            ticks_of(RC5_UNIT_US as int, rate as int) as u32,
        ),
{
    let unit = ticks(RC5_UNIT_US, rate);
    let mut v: Vec<u32> = Vec::new();
    rc5_emit(c, 1, unit, &mut v);
    proof {
        let lv = rc5_levels(*c);
        let evts = rc5_events(lv, 1, unit);
        lemma_rc5_events_alt(*c, 1, unit);
        assert(lv[1] == rc5_bit(*c, 0));
        assert forall|e: int| 0 <= e < evts.len() implies events_of_intervals(v@)[e] == evts[e] by {
            assert(evts[e].0 == (e % 2 == 0));
            assert(v@[e] == evts[e].1);
        }
        assert(events_of_intervals(v@) =~= evts);
    }
    IntervalBuffer { intervals: v }
}

} // verus!
