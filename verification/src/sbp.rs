//! The SBP protocol (Samsung Blu-ray players): pulse-distance encoded like
//! NEC, with a 4.5 ms / 4.5 ms header, 21 data bits LSB-first — a 13-bit
//! address then an 8-bit command — and no repeat frame. Each bit is a
//! 500 µs burst followed by a 500 µs (0) or 1500 µs (1) space, and a
//! trailing 500 µs burst closes the frame.

use vstd::prelude::*;
use crate::cmd::{DecodeResult, DecoderError, SbpCommand};
use crate::pulsedist::{
    bit_of, lemma_pd_frame, lemma_pd_frame_events_index, lemma_pd_run_len, low_mask, pd_compat,
    pd_frame_events, pd_run, pd_step, PdMachine, PdNominal, PdOutput, PdState, PdTimings,
};
use crate::range::{
    lemma_nominal_in_window, lemma_ticks_bounds, lemma_ticks_ordered, lemma_window_below_ticks,
    ticks, ticks_of, TickRange,
};
use crate::stream::{events_of_intervals, IntervalBuffer};

verus! {

/// Tolerance applied around every nominal SBP symbol, in percent.
pub const SBP_TOL_PCT: u32 = 25;

/// A duration longer than this many microseconds abandons a frame.
pub const SBP_TIMEOUT_US: u32 = 15_000;

/// Number of data bits in an SBP frame.
pub const SBP_NBITS: u32 = 21;

/// The lowest sampling rate the round-trip and rate-invariance theorems
/// cover: twice the rate of the shortest symbol (the 500 µs burst).
pub const SBP_MIN_RATE_HZ: u32 = 4_000;

/// Nominal symbol durations in microseconds. The repeat field is unused:
/// SBP has no repeat frame.
pub open spec fn sbp_nominal_us() -> PdNominal {
    PdNominal {
        header_pulse: 4500,
        header_space: 4500,
        repeat_space: 0,
        bit_pulse: 500,
        zero_space: 500,
        one_space: 1500,
    }
}

/// Nominal symbol durations in ticks at a sampling rate.
pub open spec fn sbp_nominal_ticks(rate: int) -> PdNominal {
    let nom = sbp_nominal_us();
    PdNominal {
        header_pulse: ticks_of(nom.header_pulse as int, rate) as u32,
        header_space: ticks_of(nom.header_space as int, rate) as u32,
        repeat_space: 0,
        bit_pulse: ticks_of(nom.bit_pulse as int, rate) as u32,
        zero_space: ticks_of(nom.zero_space as int, rate) as u32,
        one_space: ticks_of(nom.one_space as int, rate) as u32,
    }
}

/// The decoder's windows at the construction rate. The repeat window is
/// empty: no duration matches it.
pub open spec fn sbp_windows_ok(t: PdTimings, rate: int) -> bool {
    let nom = sbp_nominal_us();
    &&& t.header_pulse.is_window(nom.header_pulse as int, SBP_TOL_PCT as int, rate)
    &&& t.header_space.is_window(nom.header_space as int, SBP_TOL_PCT as int, rate)
    &&& t.repeat_space == (TickRange { lo: 1, hi: 0 })
    &&& t.bit_pulse.is_window(nom.bit_pulse as int, SBP_TOL_PCT as int, rate)
    &&& t.zero_space.is_window(nom.zero_space as int, SBP_TOL_PCT as int, rate)
    &&& t.one_space.is_window(nom.one_space as int, SBP_TOL_PCT as int, rate)
    &&& t.max == ticks_of(SBP_TIMEOUT_US as int, rate)
    &&& t.nbits == SBP_NBITS
}

/// The 21-bit payload that encodes (addr, cmd), LSB transmitted first.
pub open spec fn sbp_payload(addr: u16, cmd: u8) -> u32 {
    ((addr & 0x1FFF) as u32) | ((cmd as u32) << 13)
}

/// Split a received payload into its address and command fields.
pub open spec fn sbp_extract(p: u32) -> SbpCommand {
    SbpCommand { addr: (p & 0x1FFF) as u16, cmd: ((p >> 13) & 0xFF) as u8 }
}

/// What the decoder reports for one engine output.
pub open spec fn sbp_output_map(o: PdOutput) -> DecodeResult<SbpCommand> {
    match o {
        PdOutput::Quiet => DecodeResult::Idle,
        PdOutput::Working => DecodeResult::InProgress,
        PdOutput::Error => DecodeResult::Failed(DecoderError::Timing),
        PdOutput::Frame(p) => DecodeResult::Done(sbp_extract(p)),
        // Unreachable with an empty repeat window.
        PdOutput::Repeat => DecodeResult::Idle,
    }
}

/// An SBP decoder: the pulse-distance engine with SBP windows.
#[derive(Clone, Copy, Debug)]
pub struct SbpDecoder {
    pub m: PdMachine,
    pub rate: u32,
}

/// The decoder after one event, and what that event produced.
pub open spec fn sbp_spec_event(d: SbpDecoder, mark: bool, dur: u32) -> (
    SbpDecoder,
    DecodeResult<SbpCommand>,
) {
    let st = pd_step(d.m.t, d.m.s, mark, dur);
    (SbpDecoder { m: PdMachine { t: d.m.t, s: st.0 }, rate: d.rate }, sbp_output_map(st.1))
}

impl SbpDecoder {
    pub open spec fn wf(self) -> bool {
        &&& self.m.wf()
        &&& 1 <= self.rate <= 1_000_000
        &&& sbp_windows_ok(self.m.t, self.rate as int)
    }

    /// Build a decoder whose events will be measured in ticks of `rate`
    /// per second; all tolerance windows are precomputed here.
    pub fn new(rate: u32) -> (r: SbpDecoder)
        requires
            1 <= rate <= 1_000_000,
        ensures
            r.wf(),
            r.rate == rate,
            r.m.s == PdState::Idle,
    {
        let t = PdTimings {
            header_pulse: TickRange::new(4500, SBP_TOL_PCT, rate),
            header_space: TickRange::new(4500, SBP_TOL_PCT, rate),
            repeat_space: TickRange { lo: 1, hi: 0 },
            bit_pulse: TickRange::new(500, SBP_TOL_PCT, rate),
            zero_space: TickRange::new(500, SBP_TOL_PCT, rate),
            one_space: TickRange::new(1500, SBP_TOL_PCT, rate),
            nbits: SBP_NBITS,
            max: ticks(SBP_TIMEOUT_US, rate),
        };
        SbpDecoder { m: PdMachine { t, s: PdState::Idle }, rate }
    }

    /// Feed the decoder the level that just ended (`mark` is carrier-on)
    /// and its duration in ticks.
    pub fn event(&mut self, mark: bool, dur: u32) -> (r: DecodeResult<SbpCommand>)
        requires
            old(self).wf(),
        ensures
            final(self).wf(),
            (*final(self), r) == sbp_spec_event(*old(self), mark, dur),
    {
        let o = self.m.step(mark, dur);
        match o {
            PdOutput::Quiet => DecodeResult::Idle,
            PdOutput::Working => DecodeResult::InProgress,
            PdOutput::Error => DecodeResult::Failed(DecoderError::Timing),
            PdOutput::Frame(p) => {
                proof {
                    assert(p & 0x1FFF < 0x2000 && (p >> 13) & 0xFF < 256) by (bit_vector);
                }
                DecodeResult::Done(
                    SbpCommand { addr: (p & 0x1FFF) as u16, cmd: ((p >> 13) & 0xFF) as u8 },
                )
            },
            PdOutput::Repeat => DecodeResult::Idle,
        }
    }
}

/// Run a decoder over a sequence of (mark, duration) events.
pub open spec fn sbp_run(d: SbpDecoder, evts: Seq<(bool, u32)>) -> (
    SbpDecoder,
    Seq<DecodeResult<SbpCommand>>,
)
    decreases evts.len(),
{
    if evts.len() == 0 {
        (d, Seq::empty())
    } else {
        let first = sbp_spec_event(d, evts[0].0, evts[0].1);
        let rest = sbp_run(first.0, evts.drop_first());
        (rest.0, seq![first.1] + rest.1)
    }
}

/// Determinism: the same state and the same events give the same outputs.
pub proof fn lemma_sbp_deterministic(d1: SbpDecoder, d2: SbpDecoder, evts: Seq<(bool, u32)>)
    requires
        d1 == d2,
    ensures
        sbp_run(d1, evts) == sbp_run(d2, evts),
{
}

/// Idle recovery: an overlong duration returns the decoder to idle.
pub proof fn lemma_sbp_idle_recovery(d: SbpDecoder, mark: bool, dur: u32)
    requires
        dur > d.m.t.max,
    ensures
        sbp_spec_event(d, mark, dur).0.m.s == PdState::Idle,
        sbp_spec_event(d, mark, dur).1 == DecodeResult::<SbpCommand>::Idle,
{
}

/// Running the decoder is running the engine with every output mapped.
proof fn lemma_sbp_lift(d: SbpDecoder, evts: Seq<(bool, u32)>)
    ensures
        ({
            let pr = pd_run(d.m.t, d.m.s, evts);
            let sr = sbp_run(d, evts);
            &&& sr.0.m.t == d.m.t
            &&& sr.0.m.s == pr.0
            &&& sr.0.rate == d.rate
            &&& pr.1.len() == evts.len()
            &&& sr.1.len() == evts.len()
            &&& forall|i: int|
                0 <= i < evts.len() ==> sr.1[i] == sbp_output_map(#[trigger] pr.1[i])
        }),
    decreases evts.len(),
{
    reveal_with_fuel(pd_run, 2);
    reveal_with_fuel(sbp_run, 2);
    if evts.len() == 0 {
    } else {
        let st = pd_step(d.m.t, d.m.s, evts[0].0, evts[0].1);
        let se = sbp_spec_event(d, evts[0].0, evts[0].1);
        let d1 = se.0;
        let pr = pd_run(d.m.t, d.m.s, evts);
        let prr = pd_run(d.m.t, st.0, evts.drop_first());
        let sr = sbp_run(d, evts);
        let srr = sbp_run(d1, evts.drop_first());
        assert(pr.1 == seq![st.1] + prr.1);
        assert(sr.1 == seq![se.1] + srr.1);
        lemma_sbp_lift(d1, evts.drop_first());
        assert(forall|i: int|
            0 <= i < evts.len() ==> sr.1[i] == sbp_output_map(#[trigger] pr.1[i])) by {
            assert(forall|i: int| 1 <= i < evts.len() ==> #[trigger] sr.1[i] == srr.1[i - 1]);
            assert(forall|i: int| 1 <= i < evts.len() ==> #[trigger] pr.1[i] == prr.1[i - 1]);
        }
    }
}

/// The encoder's payload decodes back to (addr, cmd) and fits in 21 bits.
proof fn lemma_sbp_payload(addr: u16, cmd: u8)
    requires
        addr < 0x2000,
    ensures
        sbp_extract(sbp_payload(addr, cmd)) == (SbpCommand { addr, cmd }),
        sbp_payload(addr, cmd) & low_mask(SBP_NBITS) == sbp_payload(addr, cmd),
{
    let p = sbp_payload(addr, cmd);
    assert((p & 0x1FFF) as u16 == addr && ((p >> 13) & 0xFF) as u8 == cmd && p & (((1u32 << 21)
        - 1) as u32) == p) by (bit_vector)
        requires
            addr < 0x2000,
            p == ((addr & 0x1FFF) as u32) | ((cmd as u32) << 13),
    ;
}

/// At any sampling rate from the stated minimum up, the decoder's
/// windows accept the encoder's nominal symbols and classify them
/// unambiguously.
proof fn lemma_sbp_compat(d: SbpDecoder)
    requires
        d.wf(),
        SBP_MIN_RATE_HZ <= d.rate,
    ensures
        pd_compat(d.m.t, sbp_nominal_ticks(d.rate as int)),
{
    let r = d.rate as int;
    lemma_ticks_bounds(4500, r);
    lemma_ticks_bounds(500, r);
    lemma_ticks_bounds(1500, r);
    lemma_ticks_bounds(15_000, r);
    lemma_ticks_ordered(4500, 15_000, r);
    lemma_ticks_ordered(500, 15_000, r);
    lemma_ticks_ordered(1500, 15_000, r);
    lemma_nominal_in_window(4500, 25, r);
    lemma_nominal_in_window(500, 25, r);
    lemma_nominal_in_window(1500, 25, r);
    // A one space stays strictly above the zero-space window.
    assert(r * (100 * 1500 - 500 * (100 + 25)) >= 200_000_000) by (nonlinear_arith)
        requires
            r >= 4_000,
    ;
    lemma_window_below_ticks(500, 25, 1500, r);
}

/// Round trip: from idle, the event stream the encoder produces for
/// (addr, cmd) at the decoder's own rate decodes to exactly that command;
/// every earlier event reports a frame in flight and the decoder ends idle.
pub proof fn lemma_sbp_round_trip(d: SbpDecoder, addr: u16, cmd: u8)
    requires
        d.wf(),
        SBP_MIN_RATE_HZ <= d.rate,
        d.m.s == PdState::Idle,
        addr < 0x2000,
    ensures
        ({
            let evts = pd_frame_events(
                sbp_nominal_ticks(d.rate as int),
                sbp_payload(addr, cmd),
                SBP_NBITS,
            );
            let sr = sbp_run(d, evts);
            &&& sr.1.len() == 45
            &&& sr.1.last() == DecodeResult::Done(SbpCommand { addr, cmd })
            &&& forall|i: int| 0 <= i < 44 ==> sr.1[i] == DecodeResult::<SbpCommand>::InProgress
            &&& sr.0.m.s == PdState::Idle
        }),
{
    let nom = sbp_nominal_ticks(d.rate as int);
    let p = sbp_payload(addr, cmd);
    let evts = pd_frame_events(nom, p, SBP_NBITS);
    lemma_sbp_compat(d);
    lemma_sbp_payload(addr, cmd);
    lemma_pd_frame_events_index(nom, p, SBP_NBITS, 0);
    assert(evts.len() == 45);
    lemma_pd_frame(d.m.t, nom, p);
    lemma_sbp_lift(d, evts);
    let pr = pd_run(d.m.t, d.m.s, evts);
    let sr = sbp_run(d, evts);
    assert(pd_run(d.m.t, PdState::Idle, evts) == pr);
    assert(pr.1.len() == 45);
    assert(pr.1.last() == PdOutput::Frame(p));
    assert(sr.1.last() == sbp_output_map(pr.1[44]));
    assert forall|i: int| 0 <= i < 44 implies sr.1[i] == DecodeResult::<SbpCommand>::InProgress by {
        assert(pr.1[i] == PdOutput::Working);
        assert(sr.1[i] == sbp_output_map(pr.1[i]));
    }
}

/// Rate invariance: two decoders built at different sufficient sampling
/// rates, each fed the same frame as measured in its own time base,
/// decode the same command.
pub proof fn lemma_sbp_rate_invariance(d1: SbpDecoder, d2: SbpDecoder, addr: u16, cmd: u8)
    requires
        d1.wf(),
        d2.wf(),
        SBP_MIN_RATE_HZ <= d1.rate,
        SBP_MIN_RATE_HZ <= d2.rate,
        d1.m.s == PdState::Idle,
        d2.m.s == PdState::Idle,
        addr < 0x2000,
    ensures
        ({
            let p = sbp_payload(addr, cmd);
            let e1 = pd_frame_events(sbp_nominal_ticks(d1.rate as int), p, SBP_NBITS);
            let e2 = pd_frame_events(sbp_nominal_ticks(d2.rate as int), p, SBP_NBITS);
            &&& sbp_run(d1, e1).1.last() == sbp_run(d2, e2).1.last()
            &&& sbp_run(d1, e1).1.last() == DecodeResult::Done(SbpCommand { addr, cmd })
        }),
{
    lemma_sbp_round_trip(d1, addr, cmd);
    lemma_sbp_round_trip(d2, addr, cmd);
}

/// Encode one frame into an interval buffer: 45 intervals whose events are
/// exactly the frame events of the payload at the given rate.
#[verifier::loop_isolation(false)]
pub fn sbp_encode(addr: u16, cmd: u8, rate: u32) -> (b: IntervalBuffer)
    requires
        1 <= rate <= 1_000_000,
    ensures
        b@.len() == 45,
        events_of_intervals(b@) == pd_frame_events(
            sbp_nominal_ticks(rate as int),
            sbp_payload(addr, cmd),
            SBP_NBITS,
        ),
{
    let nom = PdNominal {
        header_pulse: ticks(4500, rate),
        header_space: ticks(4500, rate),
        repeat_space: 0,
        bit_pulse: ticks(500, rate),
        zero_space: ticks(500, rate),
        one_space: ticks(1500, rate),
    };
    assert(nom == sbp_nominal_ticks(rate as int));
    let p = (addr as u32 & 0x1FFF) | ((cmd as u32) << 13);
    assert(p == sbp_payload(addr, cmd)) by {
        assert((addr as u32) & 0x1FFF == ((addr & 0x1FFF) as u32)) by (bit_vector);
    }
    let mut v: Vec<u32> = Vec::new();
    v.push(nom.header_pulse);
    v.push(nom.header_space);
    let mut i: u32 = 0;
    while i < SBP_NBITS
        invariant
            i <= SBP_NBITS,
            v@.len() == 2 + 2 * i,
            v@[0] == nom.header_pulse,
            v@[1] == nom.header_space,
            forall|j: int| 2 <= j < v@.len() && j % 2 == 0 ==> v@[j] == nom.bit_pulse,
            forall|j: int|
                3 <= j < v@.len() && j % 2 == 1 ==> v@[j] == (if bit_of(p, ((j - 3) / 2) as u32) {
                    nom.one_space
                } else {
                    nom.zero_space
                }),
        decreases SBP_NBITS - i,
    {
        v.push(nom.bit_pulse);
        if (p >> i) & 1 == 1 {
            v.push(nom.one_space);
        } else {
            v.push(nom.zero_space);
        }
        proof {
            assert((2 + 2 * i + 1 - 3) / 2 == i as int);
        }
        i = i + 1;
    }
    v.push(nom.bit_pulse);
    proof {
        lemma_pd_frame_events_index(nom, p, SBP_NBITS, 0);
        let fe = pd_frame_events(nom, p, SBP_NBITS);
        assert forall|j: int| 0 <= j < 45 implies events_of_intervals(v@)[j] == fe[j] by {
            lemma_pd_frame_events_index(nom, p, SBP_NBITS, j);
        }
        assert(events_of_intervals(v@) =~= fe);
    }
    IntervalBuffer { intervals: v }
}

} // verus!
