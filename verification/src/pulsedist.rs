//! The pulse-distance engine shared by the NEC family and SBP.
//!
//! A frame is a header pulse and header space, `nbits` data bits — each a
//! fixed burst followed by a short (0) or long (1) space — and a trailing
//! burst. A short header space instead announces a repeat frame. The engine
//! collects the raw payload LSB-first and leaves field extraction and
//! validation to the protocol on top of it.

use vstd::prelude::*;
use crate::range::TickRange;

verus! {

/// The precomputed tolerance windows and frame shape of one pulse-distance
/// protocol instance.
#[derive(Clone, Copy, Debug, PartialEq, Eq, Structural)]
pub struct PdTimings {
    pub header_pulse: TickRange,
    pub header_space: TickRange,
    /// Window of the repeat-frame space. A protocol without repeat frames
    /// uses an empty window (lo > hi), which no duration matches.
    pub repeat_space: TickRange,
    pub bit_pulse: TickRange,
    pub zero_space: TickRange,
    pub one_space: TickRange,
    /// Number of data bits in a frame, at most 32.
    pub nbits: u32,
    /// Longest duration that can belong to a frame; anything longer
    /// abandons the frame in flight.
    pub max: u32,
}

/// Where the engine stands inside a frame.
#[derive(Clone, Copy, Debug, PartialEq, Eq, Structural)]
pub enum PdState {
    Idle,
    /// Header pulse seen; expecting the header or repeat space.
    HeaderSpace,
    /// Expecting the burst that starts data bit `idx`.
    BitPulse { idx: u32, acc: u32 },
    /// Burst of bit `idx` seen; expecting its value-carrying space.
    BitSpace { idx: u32, acc: u32 },
    /// All bits collected; expecting the trailing burst.
    Trailer { acc: u32 },
    /// Repeat space seen; expecting the trailing burst.
    RepeatTrailer,
}

/// What one event did to the engine.
#[derive(Clone, Copy, Debug, PartialEq, Eq, Structural)]
pub enum PdOutput {
    /// Nothing in flight (idle line, or an overlong duration abandoned the frame).
    Quiet,
    /// A frame is in flight.
    Working,
    /// A frame completed with this raw payload.
    Frame(u32),
    /// A repeat frame completed.
    Repeat,
    /// The duration matched no expected symbol; the engine reset to idle.
    Error,
}

/// The nominal symbol durations a pulse-distance encoder emits, in ticks.
#[derive(Clone, Copy, Debug, PartialEq, Eq, Structural)]
pub struct PdNominal {
    pub header_pulse: u32,
    pub header_space: u32,
    pub repeat_space: u32,
    pub bit_pulse: u32,
    pub zero_space: u32,
    pub one_space: u32,
}

/// Bit `idx` of the payload, LSB first.
pub open spec fn bit_of(p: u32, idx: u32) -> bool {
    (p >> idx) & 1 == 1
}

/// Mask of the `idx` lowest bits.
pub open spec fn low_mask(idx: u32) -> u32 {
    if idx >= 32 {
        0xffff_ffffu32
    } else {
        ((1u32 << idx) - 1) as u32
    }
}

/// One step of the engine: the event reports the level that just ended
/// (`mark` is carrier-on) and how long it lasted, in ticks.
pub open spec fn pd_step(t: PdTimings, s: PdState, mark: bool, dur: u32) -> (PdState, PdOutput) {
    if dur > t.max {
        (PdState::Idle, PdOutput::Quiet)
    } else {
        match s {
            PdState::Idle => {
                if !mark {
                    (PdState::Idle, PdOutput::Quiet)
                } else if t.header_pulse.spec_contains(dur as int) {
                    (PdState::HeaderSpace, PdOutput::Working)
                } else {
                    (PdState::Idle, PdOutput::Error)
                }
            },
            PdState::HeaderSpace => {
                if mark {
                    (PdState::Idle, PdOutput::Error)
                } else if t.header_space.spec_contains(dur as int) {
                    (PdState::BitPulse { idx: 0, acc: 0 }, PdOutput::Working)
                } else if t.repeat_space.spec_contains(dur as int) {
                    (PdState::RepeatTrailer, PdOutput::Working)
                } else {
                    (PdState::Idle, PdOutput::Error)
                }
            },
            PdState::BitPulse { idx, acc } => {
                if mark && t.bit_pulse.spec_contains(dur as int) {
                    (PdState::BitSpace { idx, acc }, PdOutput::Working)
                } else {
                    (PdState::Idle, PdOutput::Error)
                }
            },
            PdState::BitSpace { idx, acc } => {
                if mark {
                    (PdState::Idle, PdOutput::Error)
                } else if t.zero_space.spec_contains(dur as int) {
                    if idx + 1 == t.nbits {
                        (PdState::Trailer { acc }, PdOutput::Working)
                    } else {
                        (PdState::BitPulse { idx: (idx + 1) as u32, acc }, PdOutput::Working)
                    }
                } else if t.one_space.spec_contains(dur as int) {
                    let acc2 = acc | (1u32 << idx);
                    if idx + 1 == t.nbits {
                        (PdState::Trailer { acc: acc2 }, PdOutput::Working)
                    } else {
                        (PdState::BitPulse { idx: (idx + 1) as u32, acc: acc2 }, PdOutput::Working)
                    }
                } else {
                    (PdState::Idle, PdOutput::Error)
                }
            },
            PdState::Trailer { acc } => {
                if mark && t.bit_pulse.spec_contains(dur as int) {
                    (PdState::Idle, PdOutput::Frame(acc))
                } else {
                    (PdState::Idle, PdOutput::Error)
                }
            },
            PdState::RepeatTrailer => {
                if mark && t.bit_pulse.spec_contains(dur as int) {
                    (PdState::Idle, PdOutput::Repeat)
                } else {
                    (PdState::Idle, PdOutput::Error)
                }
            },
        }
    }
}

/// A state is consistent with the frame shape.
pub open spec fn pd_state_wf(t: PdTimings, s: PdState) -> bool {
    match s {
        PdState::BitPulse { idx, acc: _ } => idx < t.nbits,
        PdState::BitSpace { idx, acc: _ } => idx < t.nbits,
        _ => true,
    }
}

/// Run the engine over a sequence of (mark, duration) events, returning the
/// final state and the output of every step.
pub open spec fn pd_run(t: PdTimings, s: PdState, evts: Seq<(bool, u32)>) -> (PdState, Seq<
    PdOutput,
>)
    decreases evts.len(),
{
    if evts.len() == 0 {
        (s, Seq::empty())
    } else {
        let first = pd_step(t, s, evts[0].0, evts[0].1);
        let rest = pd_run(t, first.0, evts.drop_first());
        (rest.0, seq![first.1] + rest.1)
    }
}

/// A run produces one output per event.
pub proof fn lemma_pd_run_len(t: PdTimings, s: PdState, evts: Seq<(bool, u32)>)
    ensures
        pd_run(t, s, evts).1.len() == evts.len(),
    decreases evts.len(),
{
    if evts.len() > 0 {
        lemma_pd_run_len(t, pd_step(t, s, evts[0].0, evts[0].1).0, evts.drop_first());
    }
}

/// The executable engine: the windows plus the current state.
#[derive(Clone, Copy, Debug)]
pub struct PdMachine {
    pub t: PdTimings,
    pub s: PdState,
}

impl PdMachine {
    pub open spec fn wf(self) -> bool {
        &&& 1 <= self.t.nbits <= 32
        &&& pd_state_wf(self.t, self.s)
    }

    /// Feed one event; the returned output and the new state are exactly
    /// what `pd_step` says.
    pub fn step(&mut self, mark: bool, dur: u32) -> (r: PdOutput)
        requires
            old(self).wf(),
        ensures
            final(self).wf(),
            final(self).t == old(self).t,
            (final(self).s, r) == pd_step(old(self).t, old(self).s, mark, dur),
    {
        if dur > self.t.max {
            self.s = PdState::Idle;
            return PdOutput::Quiet;
        }
        match self.s {
            PdState::Idle => {
                if !mark {
                    PdOutput::Quiet
                } else if self.t.header_pulse.contains(dur) {
                    self.s = PdState::HeaderSpace;
                    PdOutput::Working
                } else {
                    self.s = PdState::Idle;
                    PdOutput::Error
                }
            },
            PdState::HeaderSpace => {
                if mark {
                    self.s = PdState::Idle;
                    PdOutput::Error
                } else if self.t.header_space.contains(dur) {
                    self.s = PdState::BitPulse { idx: 0, acc: 0 };
                    PdOutput::Working
                } else if self.t.repeat_space.contains(dur) {
                    self.s = PdState::RepeatTrailer;
                    PdOutput::Working
                } else {
                    self.s = PdState::Idle;
                    PdOutput::Error
                }
            },
            PdState::BitPulse { idx, acc } => {
                if mark && self.t.bit_pulse.contains(dur) {
                    self.s = PdState::BitSpace { idx, acc };
                    PdOutput::Working
                } else {
                    self.s = PdState::Idle;
                    PdOutput::Error
                }
            },
            PdState::BitSpace { idx, acc } => {
                if mark {
                    self.s = PdState::Idle;
                    PdOutput::Error
                } else if self.t.zero_space.contains(dur) {
                    if idx + 1 == self.t.nbits {
                        self.s = PdState::Trailer { acc };
                    } else {
                        self.s = PdState::BitPulse { idx: idx + 1, acc };
                    }
                    PdOutput::Working
                } else if self.t.one_space.contains(dur) {
                    let acc2 = acc | (1u32 << idx);
                    if idx + 1 == self.t.nbits {
                        self.s = PdState::Trailer { acc: acc2 };
                    } else {
                        self.s = PdState::BitPulse { idx: idx + 1, acc: acc2 };
                    }
                    PdOutput::Working
                } else {
                    self.s = PdState::Idle;
                    PdOutput::Error
                }
            },
            PdState::Trailer { acc } => {
                if mark && self.t.bit_pulse.contains(dur) {
                    self.s = PdState::Idle;
                    PdOutput::Frame(acc)
                } else {
                    self.s = PdState::Idle;
                    PdOutput::Error
                }
            },
            PdState::RepeatTrailer => {
                if mark && self.t.bit_pulse.contains(dur) {
                    self.s = PdState::Idle;
                    PdOutput::Repeat
                } else {
                    self.s = PdState::Idle;
                    PdOutput::Error
                }
            },
        }
    }
}

/// The events an encoder emits for data bits `idx..nbits` of payload `p`,
/// followed by the trailing burst.
pub open spec fn pd_bit_events(nom: PdNominal, p: u32, idx: u32, nbits: u32) -> Seq<(bool, u32)>
    decreases nbits - idx,
{
    if idx >= nbits {
        seq![(true, nom.bit_pulse)]
    } else {
        seq![
            (true, nom.bit_pulse),
            (false, if bit_of(p, idx) { nom.one_space } else { nom.zero_space }),
        ] + pd_bit_events(nom, p, (idx + 1) as u32, nbits)
    }
}

/// The events an encoder emits for a whole frame carrying payload `p`.
pub open spec fn pd_frame_events(nom: PdNominal, p: u32, nbits: u32) -> Seq<(bool, u32)> {
    seq![(true, nom.header_pulse), (false, nom.header_space)] + pd_bit_events(nom, p, 0, nbits)
}

/// The events an encoder emits for a repeat frame.
pub open spec fn pd_repeat_events(nom: PdNominal) -> Seq<(bool, u32)> {
    seq![(true, nom.header_pulse), (false, nom.repeat_space), (true, nom.bit_pulse)]
}

/// The decoder windows accept the encoder nominals and classify them
/// unambiguously where the engine's match order requires it.
pub open spec fn pd_compat(t: PdTimings, nom: PdNominal) -> bool {
    &&& nom.header_pulse <= t.max
    &&& nom.header_space <= t.max
    &&& nom.bit_pulse <= t.max
    &&& nom.zero_space <= t.max
    &&& nom.one_space <= t.max
    &&& t.header_pulse.spec_contains(nom.header_pulse as int)
    &&& t.header_space.spec_contains(nom.header_space as int)
    &&& t.bit_pulse.spec_contains(nom.bit_pulse as int)
    &&& t.zero_space.spec_contains(nom.zero_space as int)
    &&& !t.zero_space.spec_contains(nom.one_space as int)
    &&& t.one_space.spec_contains(nom.one_space as int)
}

/// The decoder also accepts the encoder's repeat frame and tells its space
/// apart from a header space (protocols with repeat frames only).
pub open spec fn pd_repeat_compat(t: PdTimings, nom: PdNominal) -> bool {
    &&& nom.repeat_space <= t.max
    &&& !t.header_space.spec_contains(nom.repeat_space as int)
    &&& t.repeat_space.spec_contains(nom.repeat_space as int)
}

/// Accumulating bit `idx` of `p` on top of the `idx` low bits of `p` gives
/// the `idx + 1` low bits of `p`.
proof fn lemma_acc_step(p: u32, acc: u32, idx: u32)
    requires
        idx < 32,
        acc == p & low_mask(idx),
    ensures
        (if bit_of(p, idx) {
            acc | (1u32 << idx)
        } else {
            acc
        }) == p & low_mask((idx + 1) as u32),
{
    assert((if (p >> idx) & 1 == 1 {
        (p & low_mask(idx)) | (1u32 << idx)
    } else {
        p & low_mask(idx)
    }) == p & low_mask((idx + 1) as u32)) by (bit_vector)
        requires
            idx < 32,
    ;
}

/// The state the engine is in when bit `idx` is the next to collect (or,
/// after the last bit, when only the trailing burst is missing).
pub open spec fn pd_mid_state(t: PdTimings, idx: u32, acc: u32) -> PdState {
    if idx == t.nbits {
        PdState::Trailer { acc }
    } else {
        PdState::BitPulse { idx, acc }
    }
}

/// Running the engine over the encoder's events for bits `idx..nbits` from
/// the matching mid-frame state yields exactly the payload: every step
/// reports a frame in flight and the last reports `Frame(p)`.
pub proof fn lemma_pd_bits(t: PdTimings, nom: PdNominal, p: u32, idx: u32, acc: u32)
    requires
        pd_compat(t, nom),
        t.nbits <= 32,
        idx <= t.nbits,
        acc == p & low_mask(idx),
        p & low_mask(t.nbits) == p,
    ensures
        ({
            let evts = pd_bit_events(nom, p, idx, t.nbits);
            let r = pd_run(t, pd_mid_state(t, idx, acc), evts);
            &&& r.0 == PdState::Idle
            &&& r.1.len() == evts.len()
            &&& r.1.len() >= 1
            &&& r.1.last() == PdOutput::Frame(p)
            &&& forall|i: int| 0 <= i < r.1.len() - 1 ==> r.1[i] == PdOutput::Working
        }),
    decreases t.nbits - idx,
{
    reveal_with_fuel(pd_run, 4);
    let evts = pd_bit_events(nom, p, idx, t.nbits);
    if idx == t.nbits {
        assert(acc == p);
        assert(evts =~= seq![(true, nom.bit_pulse)]);
        let first = pd_step(t, PdState::Trailer { acc }, true, nom.bit_pulse);
        assert(first == (PdState::Idle, PdOutput::Frame(p)));
        assert(evts.drop_first() =~= Seq::<(bool, u32)>::empty());
        let r = pd_run(t, pd_mid_state(t, idx, acc), evts);
        assert(r.1 =~= seq![PdOutput::Frame(p)]);
    } else {
        let bitev: (bool, u32) = (
            false,
            if bit_of(p, idx) {
                nom.one_space
            } else {
                nom.zero_space
            },
        );
        let rest = pd_bit_events(nom, p, (idx + 1) as u32, t.nbits);
        assert(evts =~= seq![(true, nom.bit_pulse), bitev] + rest);
        // First event: the burst that starts bit idx.
        let s0 = pd_mid_state(t, idx, acc);
        assert(s0 == PdState::BitPulse { idx, acc });
        let st1 = pd_step(t, s0, true, nom.bit_pulse);
        assert(st1 == (PdState::BitSpace { idx, acc }, PdOutput::Working));
        // Second event: the value-carrying space.
        lemma_acc_step(p, acc, idx);
        let acc2 = (if bit_of(p, idx) {
            acc | (1u32 << idx)
        } else {
            acc
        });
        let st2 = pd_step(t, st1.0, bitev.0, bitev.1);
        assert(st2 == (pd_mid_state(t, (idx + 1) as u32, acc2), PdOutput::Working));
        // The remaining events by induction.
        lemma_pd_bits(t, nom, p, (idx + 1) as u32, acc2);
        let rr = pd_run(t, st2.0, rest);
        // Stitch the unrolled steps back onto the recursive run.
        assert(evts[0] == (true, nom.bit_pulse));
        assert(evts.drop_first() =~= seq![bitev] + rest);
        assert(evts.drop_first()[0] == bitev);
        assert(evts.drop_first().drop_first() =~= rest);
        let r = pd_run(t, s0, evts);
        assert(r.0 == rr.0);
        assert(r.1 =~= seq![PdOutput::Working, PdOutput::Working] + rr.1);
        assert(r.1.last() == rr.1.last());
        assert(forall|i: int| 0 <= i < r.1.len() - 1 ==> r.1[i] == PdOutput::Working) by {
            assert(forall|i: int| 2 <= i < r.1.len() ==> r.1[i] == rr.1[i - 2]);
        }
    }
}

/// Round trip at the engine level: from idle, the encoder's events for a
/// whole frame with payload `p` (which must fit in `nbits` bits) drive the
/// engine back to idle, reporting a frame in flight at every step and
/// `Frame(p)` at the last.
pub proof fn lemma_pd_frame(t: PdTimings, nom: PdNominal, p: u32)
    requires
        pd_compat(t, nom),
        1 <= t.nbits <= 32,
        p & low_mask(t.nbits) == p,
    ensures
        ({
            let evts = pd_frame_events(nom, p, t.nbits);
            let r = pd_run(t, PdState::Idle, evts);
            &&& r.0 == PdState::Idle
            &&& r.1.len() == evts.len()
            &&& r.1.len() >= 3
            &&& r.1.last() == PdOutput::Frame(p)
            &&& forall|i: int| 0 <= i < r.1.len() - 1 ==> r.1[i] == PdOutput::Working
        }),
{
    reveal_with_fuel(pd_run, 4);
    let evts = pd_frame_events(nom, p, t.nbits);
    let bits = pd_bit_events(nom, p, 0, t.nbits);
    assert(evts =~= seq![(true, nom.header_pulse), (false, nom.header_space)] + bits);
    let st1 = pd_step(t, PdState::Idle, true, nom.header_pulse);
    assert(st1 == (PdState::HeaderSpace, PdOutput::Working));
    let st2 = pd_step(t, st1.0, false, nom.header_space);
    assert(st2 == (PdState::BitPulse { idx: 0, acc: 0 }, PdOutput::Working));
    assert(p & low_mask(0) == 0) by (bit_vector);
    lemma_pd_bits(t, nom, p, 0, 0);
    assert(pd_mid_state(t, 0, 0) == PdState::BitPulse { idx: 0, acc: 0u32 });
    let rr = pd_run(t, st2.0, bits);
    assert(evts[0] == (true, nom.header_pulse));
    assert(evts.drop_first() =~= seq![(false, nom.header_space)] + bits);
    assert(evts.drop_first()[0] == (false, nom.header_space));
    assert(evts.drop_first().drop_first() =~= bits);
    let r = pd_run(t, PdState::Idle, evts);
    assert(r.0 == rr.0);
    assert(r.1 =~= seq![PdOutput::Working, PdOutput::Working] + rr.1);
    assert(r.1.last() == rr.1.last());
    assert(bits.len() >= 1);
    assert(forall|i: int| 0 <= i < r.1.len() - 1 ==> r.1[i] == PdOutput::Working) by {
        assert(forall|i: int| 2 <= i < r.1.len() ==> r.1[i] == rr.1[i - 2]);
    }
}

/// From idle, the encoder's events for a repeat frame drive the engine back
/// to idle and report `Repeat` at the last step.
pub proof fn lemma_pd_repeat(t: PdTimings, nom: PdNominal)
    requires
        pd_compat(t, nom),
        pd_repeat_compat(t, nom),
    ensures
        ({
            let evts = pd_repeat_events(nom);
            let r = pd_run(t, PdState::Idle, evts);
            &&& r.0 == PdState::Idle
            &&& r.1 =~= seq![PdOutput::Working, PdOutput::Working, PdOutput::Repeat]
        }),
{
    reveal_with_fuel(pd_run, 5);
    let evts = pd_repeat_events(nom);
    let st1 = pd_step(t, PdState::Idle, true, nom.header_pulse);
    assert(st1 == (PdState::HeaderSpace, PdOutput::Working));
    let st2 = pd_step(t, st1.0, false, nom.repeat_space);
    assert(st2 == (PdState::RepeatTrailer, PdOutput::Working));
    let st3 = pd_step(t, st2.0, true, nom.bit_pulse);
    assert(st3 == (PdState::Idle, PdOutput::Repeat));
    assert(evts.drop_first() =~= seq![(false, nom.repeat_space), (true, nom.bit_pulse)]);
    assert(evts.drop_first().drop_first() =~= seq![(true, nom.bit_pulse)]);
    assert(evts.drop_first().drop_first().drop_first() =~= Seq::<(bool, u32)>::empty());
    let r = pd_run(t, PdState::Idle, evts);
    assert(r.1 =~= seq![PdOutput::Working, PdOutput::Working, PdOutput::Repeat]);
}

/// The events for bits `idx..nbits` are one value-carrying pair per bit
/// plus the trailing burst.
pub proof fn lemma_pd_bit_events_len(nom: PdNominal, p: u32, idx: u32, nbits: u32)
    requires
        idx <= nbits,
    ensures
        pd_bit_events(nom, p, idx, nbits).len() == 2 * (nbits - idx) + 1,
    decreases nbits - idx,
{
    if idx < nbits {
        lemma_pd_bit_events_len(nom, p, (idx + 1) as u32, nbits);
    }
}

/// Closed form of the encoder's bit events: bursts at even offsets, the
/// value-carrying space of bit `idx + (j - 1) / 2` at odd offset `j`.
pub proof fn lemma_pd_bit_events_index(nom: PdNominal, p: u32, idx: u32, nbits: u32, j: int)
    requires
        idx <= nbits,
        nbits <= 32,
        0 <= j <= 2 * (nbits - idx),
    ensures
        ({
            let evts = pd_bit_events(nom, p, idx, nbits);
            &&& j % 2 == 0 ==> evts[j] == (true, nom.bit_pulse)
            &&& j % 2 == 1 ==> evts[j] == (
                false,
                if bit_of(p, (idx + (j - 1) / 2) as u32) {
                    nom.one_space
                } else {
                    nom.zero_space
                },
            )
        }),
    decreases nbits - idx,
{
    lemma_pd_bit_events_len(nom, p, idx, nbits);
    if idx < nbits {
        let rest = pd_bit_events(nom, p, (idx + 1) as u32, nbits);
        lemma_pd_bit_events_len(nom, p, (idx + 1) as u32, nbits);
        if j >= 2 {
            lemma_pd_bit_events_index(nom, p, (idx + 1) as u32, nbits, j - 2);
            assert(pd_bit_events(nom, p, idx, nbits)[j] == rest[j - 2]);
            if j % 2 == 1 {
                assert((j - 2 - 1) / 2 + 1 == (j - 1) / 2);
            }
        }
    }
}

/// Closed form of the encoder's whole-frame events: header pulse, header
/// space, then bursts at even offsets and value-carrying spaces at odd ones.
pub proof fn lemma_pd_frame_events_index(nom: PdNominal, p: u32, nbits: u32, j: int)
    requires
        nbits <= 32,
        0 <= j < 2 * nbits + 3,
    ensures
        pd_frame_events(nom, p, nbits).len() == 2 * nbits + 3,
        ({
            let evts = pd_frame_events(nom, p, nbits);
            &&& j == 0 ==> evts[j] == (true, nom.header_pulse)
            &&& j == 1 ==> evts[j] == (false, nom.header_space)
            &&& j >= 2 && j % 2 == 0 ==> evts[j] == (true, nom.bit_pulse)
            &&& j >= 3 && j % 2 == 1 ==> evts[j] == (
                false,
                if bit_of(p, ((j - 3) / 2) as u32) {
                    nom.one_space
                } else {
                    nom.zero_space
                },
            )
        }),
{
    lemma_pd_bit_events_len(nom, p, 0, nbits);
    let bits = pd_bit_events(nom, p, 0, nbits);
    if j >= 2 {
        assert(pd_frame_events(nom, p, nbits)[j] == bits[j - 2]);
        lemma_pd_bit_events_index(nom, p, 0, nbits, j - 2);
        if j % 2 == 1 {
            assert((j - 2 - 1) / 2 == (j - 3) / 2);
        }
    }
}

/// A duration longer than the protocol's longest valid symbol abandons
/// whatever is in flight and returns the engine to idle, from any state.
pub proof fn lemma_pd_abandon(t: PdTimings, s: PdState, mark: bool, dur: u32)
    requires
        dur > t.max,
    ensures
        pd_step(t, s, mark, dur) == (PdState::Idle, PdOutput::Quiet),
{
}

} // verus!
