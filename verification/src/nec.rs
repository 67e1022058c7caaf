//! The NEC protocol family: standard NEC, the Samsung flavour (shorter
//! header, no complement bytes checked) and the Apple flavour (fixed 16-bit
//! vendor field).
//!
//! A frame is pulse-distance encoded: 9 ms header pulse (4.5 ms for
//! Samsung), 4.5 ms header space, then 32 bits LSB-first — each a 562 µs
//! burst followed by a 562 µs (0) or 1687 µs (1) space — and a trailing
//! 562 µs burst. A 2.25 ms header space instead announces a repeat frame,
//! which re-emits the previous command with the repeat flag set.

use vstd::prelude::*;
use crate::cmd::{DecodeResult, DecoderError, NecCommand};
use crate::pulsedist::{
    bit_of, lemma_pd_frame, lemma_pd_frame_events_index, lemma_pd_repeat, lemma_pd_run_len, low_mask,
    pd_compat, pd_repeat_compat, pd_frame_events, pd_repeat_events, pd_run, pd_step, PdMachine, PdNominal, PdOutput,
    PdState, PdTimings,
};
use crate::range::{
    lemma_nominal_in_window, lemma_ticks_below_window, lemma_ticks_bounds, lemma_ticks_ordered,
    lemma_window_below_ticks, ticks, ticks_of, TickRange,
};
use crate::stream::{events_of_intervals, IntervalBuffer};

verus! {

/// Which member of the NEC family a decoder or encoder speaks.
#[derive(Clone, Copy, Debug, PartialEq, Eq, Structural)]
pub enum NecVariant {
    /// Classic NEC: address and command are each followed by their
    /// bitwise complement, and both complements are verified.
    Standard,
    /// Samsung's flavour: 4.5 ms header pulse and no complement check.
    Samsung,
    /// Apple's flavour: the low 16 payload bits are a fixed vendor field.
    Apple,
}

/// Tolerance applied around every nominal NEC symbol, in percent.
pub const NEC_TOL_PCT: u32 = 25;

/// A duration longer than this many microseconds abandons a frame.
pub const NEC_TIMEOUT_US: u32 = 20_000;

/// The lowest sampling rate the round-trip and rate-invariance theorems
/// cover: twice the rate of the shortest symbol (the 562 µs burst), the
/// sufficiency bound for resolving every symbol.
pub const NEC_MIN_RATE_HZ: u32 = 3_559;

/// The fixed low 16 payload bits of an Apple-flavour frame.
pub const APPLE_VENDOR: u32 = 0x87EE;

/// Nominal symbol durations in microseconds.
pub open spec fn nec_nominal_us(variant: NecVariant) -> PdNominal {
    match variant {
        NecVariant::Samsung => PdNominal {
            header_pulse: 4500,
            header_space: 4500,
            repeat_space: 2250,
            bit_pulse: 562,
            zero_space: 562,
            one_space: 1687,
        },
        _ => PdNominal {
            header_pulse: 9000,
            header_space: 4500,
            repeat_space: 2250,
            bit_pulse: 562,
            zero_space: 562,
            one_space: 1687,
        },
    }
}

/// Nominal symbol durations in ticks at a sampling rate: what the encoder
/// emits and the ideal signal a receiver at that rate measures.
pub open spec fn nec_nominal_ticks(variant: NecVariant, rate: int) -> PdNominal {
    let nom = nec_nominal_us(variant);
    PdNominal {
        header_pulse: ticks_of(nom.header_pulse as int, rate) as u32,
        header_space: ticks_of(nom.header_space as int, rate) as u32,
        repeat_space: ticks_of(nom.repeat_space as int, rate) as u32,
        bit_pulse: ticks_of(nom.bit_pulse as int, rate) as u32,
        zero_space: ticks_of(nom.zero_space as int, rate) as u32,
        one_space: ticks_of(nom.one_space as int, rate) as u32,
    }
}

/// The decoder's windows are the tolerance expansions of the variant's
/// nominal symbols at the construction rate.
pub open spec fn nec_windows_ok(t: PdTimings, variant: NecVariant, rate: int) -> bool {
    let nom = nec_nominal_us(variant);
    &&& t.header_pulse.is_window(nom.header_pulse as int, NEC_TOL_PCT as int, rate)
    &&& t.header_space.is_window(nom.header_space as int, NEC_TOL_PCT as int, rate)
    &&& t.repeat_space.is_window(nom.repeat_space as int, NEC_TOL_PCT as int, rate)
    &&& t.bit_pulse.is_window(nom.bit_pulse as int, NEC_TOL_PCT as int, rate)
    &&& t.zero_space.is_window(nom.zero_space as int, NEC_TOL_PCT as int, rate)
    &&& t.one_space.is_window(nom.one_space as int, NEC_TOL_PCT as int, rate)
    &&& t.max == ticks_of(NEC_TIMEOUT_US as int, rate)
    &&& t.nbits == 32
}

/// The 32-bit payload that encodes `addr` and `cmd`, LSB transmitted first.
pub open spec fn nec_payload(variant: NecVariant, addr: u8, cmd: u8) -> u32 {
    match variant {
        NecVariant::Standard => (addr as u32) | (((addr ^ 0xFF) as u32) << 8) | ((cmd as u32)
            << 16) | (((cmd ^ 0xFF) as u32) << 24),
        NecVariant::Samsung => (addr as u32) | ((addr as u32) << 8) | ((cmd as u32) << 16) | (((cmd
            ^ 0xFF) as u32) << 24),
        NecVariant::Apple => APPLE_VENDOR | ((cmd as u32) << 16) | ((addr as u32) << 24),
    }
}

/// Extract and validate a received payload. `None` is a data error: a
/// complement byte (standard) or the vendor field (Apple) did not check out.
/// The Samsung flavour validates nothing.
pub open spec fn nec_validate(variant: NecVariant, p: u32) -> Option<NecCommand> {
    match variant {
        NecVariant::Standard => {
            if ((p >> 8) & 0xFF) == (p & 0xFF) ^ 0xFF && ((p >> 24) & 0xFF) == ((p >> 16) & 0xFF)
                ^ 0xFF {
                Some(
                    NecCommand {
                        addr: (p & 0xFF) as u8,
                        cmd: ((p >> 16) & 0xFF) as u8,
                        repeat: false,
                    },
                )
            } else {
                None
            }
        },
        NecVariant::Samsung => Some(
            NecCommand { addr: (p & 0xFF) as u8, cmd: ((p >> 16) & 0xFF) as u8, repeat: false },
        ),
        NecVariant::Apple => {
            if p & 0xFFFF == APPLE_VENDOR {
                Some(
                    NecCommand {
                        addr: ((p >> 24) & 0xFF) as u8,
                        cmd: ((p >> 16) & 0xFF) as u8,
                        repeat: false,
                    },
                )
            } else {
                None
            }
        },
    }
}

/// What the decoder reports for one engine output, given the previous
/// frame's command (for repeat frames).
pub open spec fn nec_output_map(
    variant: NecVariant,
    last: Option<NecCommand>,
    o: PdOutput,
) -> DecodeResult<NecCommand> {
    match o {
        PdOutput::Quiet => DecodeResult::Idle,
        PdOutput::Working => DecodeResult::InProgress,
        PdOutput::Error => DecodeResult::Failed(DecoderError::Timing),
        PdOutput::Frame(p) => match nec_validate(variant, p) {
            Some(c) => DecodeResult::Done(c),
            None => DecodeResult::Failed(DecoderError::Data),
        },
        PdOutput::Repeat => match last {
            // A repeat frame re-emits the previous command.
            Some(c) => DecodeResult::Done(NecCommand { addr: c.addr, cmd: c.cmd, repeat: true }),
            // A repeat with no prior frame is dropped silently.
            None => DecodeResult::Idle,
        },
    }
}

/// How one engine output changes the remembered previous command.
pub open spec fn nec_last_update(
    variant: NecVariant,
    last: Option<NecCommand>,
    o: PdOutput,
) -> Option<NecCommand> {
    match o {
        PdOutput::Frame(p) => match nec_validate(variant, p) {
            Some(c) => Some(c),
            None => last,
        },
        _ => last,
    }
}

/// An NEC-family decoder: the pulse-distance engine with the variant's
/// windows, plus the previous frame for repeat detection.
#[derive(Clone, Copy, Debug)]
pub struct NecDecoder {
    pub m: PdMachine,
    pub variant: NecVariant,
    pub last: Option<NecCommand>,
    pub rate: u32,
}

/// The decoder after one event, and what that event produced.
pub open spec fn nec_spec_event(d: NecDecoder, mark: bool, dur: u32) -> (
    NecDecoder,
    DecodeResult<NecCommand>,
) {
    let st = pd_step(d.m.t, d.m.s, mark, dur);
    (
        NecDecoder {
            m: PdMachine { t: d.m.t, s: st.0 },
            variant: d.variant,
            last: nec_last_update(d.variant, d.last, st.1),
            rate: d.rate,
        },
        nec_output_map(d.variant, d.last, st.1),
    )
}

impl NecDecoder {
    pub open spec fn wf(self) -> bool {
        &&& self.m.wf()
        &&& 1 <= self.rate <= 1_000_000
        &&& nec_windows_ok(self.m.t, self.variant, self.rate as int)
    }

    /// Build a decoder for `variant` whose events will be measured in ticks
    /// of `rate` per second; all tolerance windows are precomputed here.
    pub fn new(rate: u32, variant: NecVariant) -> (r: NecDecoder)
        requires
            1 <= rate <= 1_000_000,
        ensures
            r.wf(),
            r.rate == rate,
            r.variant == variant,
            r.m.s == PdState::Idle,
            r.last is None,
    {
        let nom = match variant {
            NecVariant::Samsung => PdNominal {
                header_pulse: 4500,
                header_space: 4500,
                repeat_space: 2250,
                bit_pulse: 562,
                zero_space: 562,
                one_space: 1687,
            },
            _ => PdNominal {
                header_pulse: 9000,
                header_space: 4500,
                repeat_space: 2250,
                bit_pulse: 562,
                zero_space: 562,
                one_space: 1687,
            },
        };
        let t = PdTimings {
            header_pulse: TickRange::new(nom.header_pulse, NEC_TOL_PCT, rate),
            header_space: TickRange::new(nom.header_space, NEC_TOL_PCT, rate),
            repeat_space: TickRange::new(nom.repeat_space, NEC_TOL_PCT, rate),
            bit_pulse: TickRange::new(nom.bit_pulse, NEC_TOL_PCT, rate),
            zero_space: TickRange::new(nom.zero_space, NEC_TOL_PCT, rate),
            one_space: TickRange::new(nom.one_space, NEC_TOL_PCT, rate),
            nbits: 32,
            max: ticks(NEC_TIMEOUT_US, rate),
        };
        NecDecoder { m: PdMachine { t, s: PdState::Idle }, variant, last: None, rate }
    }

    /// Feed the decoder the level that just ended (`mark` is carrier-on)
    /// and its duration in ticks.
    pub fn event(&mut self, mark: bool, dur: u32) -> (r: DecodeResult<NecCommand>)
        requires
            old(self).wf(),
        ensures
            final(self).wf(),
            (*final(self), r) == nec_spec_event(*old(self), mark, dur),
    {
        let o = self.m.step(mark, dur);
        match o {
            PdOutput::Quiet => DecodeResult::Idle,
            PdOutput::Working => DecodeResult::InProgress,
            PdOutput::Error => DecodeResult::Failed(DecoderError::Timing),
            PdOutput::Frame(p) => match nec_validate_exec(self.variant, p) {
                Some(c) => {
                    self.last = Some(c);
                    DecodeResult::Done(c)
                },
                None => DecodeResult::Failed(DecoderError::Data),
            },
            PdOutput::Repeat => match self.last {
                Some(c) => DecodeResult::Done(
                    NecCommand { addr: c.addr, cmd: c.cmd, repeat: true },
                ),
                None => DecodeResult::Idle,
            },
        }
    }
}

/// Run a decoder over a sequence of (mark, duration) events, returning the
/// final decoder and what every event produced.
pub open spec fn nec_run(d: NecDecoder, evts: Seq<(bool, u32)>) -> (
    NecDecoder,
    Seq<DecodeResult<NecCommand>>,
)
    decreases evts.len(),
{
    if evts.len() == 0 {
        (d, Seq::empty())
    } else {
        let first = nec_spec_event(d, evts[0].0, evts[0].1);
        let rest = nec_run(first.0, evts.drop_first());
        (rest.0, seq![first.1] + rest.1)
    }
}

/// Determinism: a decoder given the same state and the same event sequence
/// produces the same outputs and ends in the same state, every time.
pub proof fn lemma_nec_deterministic(d1: NecDecoder, d2: NecDecoder, evts: Seq<(bool, u32)>)
    requires
        d1 == d2,
    ensures
        nec_run(d1, evts) == nec_run(d2, evts),
{
}

/// Idle recovery: a duration longer than the decoder's abandon threshold
/// returns it to idle from any state, reporting an idle line.
pub proof fn lemma_nec_idle_recovery(d: NecDecoder, mark: bool, dur: u32)
    requires
        dur > d.m.t.max,
    ensures
        nec_spec_event(d, mark, dur).0.m.s == PdState::Idle,
        nec_spec_event(d, mark, dur).1 == DecodeResult::<NecCommand>::Idle,
        nec_spec_event(d, mark, dur).0.last == d.last,
{
}

/// A run produces one result per event.
pub proof fn lemma_nec_run_len(d: NecDecoder, evts: Seq<(bool, u32)>)
    ensures
        nec_run(d, evts).1.len() == evts.len(),
    decreases evts.len(),
{
    if evts.len() > 0 {
        lemma_nec_run_len(nec_spec_event(d, evts[0].0, evts[0].1).0, evts.drop_first());
    }
}

/// A stream whose carrier-on periods are all too short for the header
/// pulse keeps an idle NEC decoder idle: it never completes a frame, so
/// another protocol's traffic can never decode as an NEC command.
pub proof fn lemma_nec_ignores_short_marks(d: NecDecoder, evts: Seq<(bool, u32)>)
    requires
        d.m.s == PdState::Idle,
        forall|i: int|
            0 <= i < evts.len() ==> ((#[trigger] evts[i]).0 ==> evts[i].1
                < d.m.t.header_pulse.lo),
    ensures
        nec_run(d, evts).0.m.s == PdState::Idle,
        forall|i: int| 0 <= i < evts.len() ==> !(#[trigger] nec_run(d, evts).1[i] is Done),
    decreases evts.len(),
{
    reveal_with_fuel(nec_run, 2);
    if evts.len() > 0 {
        let st = nec_spec_event(d, evts[0].0, evts[0].1);
        assert(st.0.m.s == PdState::Idle);
        assert(!(st.1 is Done));
        assert(st.0.m.t == d.m.t);
        assert forall|i: int| 0 <= i < evts.drop_first().len() implies ((#[trigger] evts.drop_first()[i]).0
            ==> evts.drop_first()[i].1 < st.0.m.t.header_pulse.lo) by {
            assert(evts.drop_first()[i] == evts[i + 1]);
        }
        lemma_nec_ignores_short_marks(st.0, evts.drop_first());
        lemma_nec_run_len(st.0, evts.drop_first());
        let nr = nec_run(d, evts);
        let nrr = nec_run(st.0, evts.drop_first());
        assert(nr.1 == seq![st.1] + nrr.1);
        assert forall|i: int| 0 <= i < evts.len() implies !(#[trigger] nr.1[i] is Done) by {
            if i >= 1 {
                assert(nr.1[i] == nrr.1[i - 1]);
            }
        }
    }
}

/// Running the decoder mirrors running the engine: as long as no frame or
/// repeat completes before the last event, every decoder output is the
/// engine's output put through `nec_output_map` with the starting
/// previous-frame command, and only the last event can change it.
proof fn lemma_nec_lift(d: NecDecoder, evts: Seq<(bool, u32)>)
    requires
        forall|i: int|
            0 <= i < evts.len() - 1 ==> {
                &&& !(#[trigger] pd_run(d.m.t, d.m.s, evts).1[i] is Frame)
                &&& !(pd_run(d.m.t, d.m.s, evts).1[i] is Repeat)
            },
    ensures
        ({
            let pr = pd_run(d.m.t, d.m.s, evts);
            let nr = nec_run(d, evts);
            &&& nr.0.m.t == d.m.t
            &&& nr.0.m.s == pr.0
            &&& nr.0.variant == d.variant
            &&& nr.0.rate == d.rate
            &&& pr.1.len() == evts.len()
            &&& nr.1.len() == evts.len()
            &&& forall|i: int|
                0 <= i < evts.len() ==> nr.1[i] == nec_output_map(d.variant, d.last, #[trigger] pr.1[i])
            &&& nr.0.last == if evts.len() == 0 {
                d.last
            } else {
                nec_last_update(d.variant, d.last, pr.1.last())
            }
        }),
    decreases evts.len(),
{
    reveal_with_fuel(pd_run, 2);
    reveal_with_fuel(nec_run, 2);
    if evts.len() == 0 {
    } else {
        let st = pd_step(d.m.t, d.m.s, evts[0].0, evts[0].1);
        let ne = nec_spec_event(d, evts[0].0, evts[0].1);
        let d1 = ne.0;
        let pr = pd_run(d.m.t, d.m.s, evts);
        let prr = pd_run(d.m.t, st.0, evts.drop_first());
        let nr = nec_run(d, evts);
        let nrr = nec_run(d1, evts.drop_first());
        assert(pr.1 == seq![st.1] + prr.1);
        assert(nr.1 == seq![ne.1] + nrr.1);
        assert(pr.1[0] == st.1);
        assert(forall|i: int| 0 <= i < prr.1.len() ==> #[trigger] prr.1[i] == pr.1[i + 1]);
        if evts.len() >= 2 {
            // The first output is passive, so the remembered command survives it.
            assert(!(st.1 is Frame) && !(st.1 is Repeat));
            assert(d1.last == d.last);
        }
        assert(pd_run(d1.m.t, d1.m.s, evts.drop_first()) == prr);
        lemma_pd_run_len(d.m.t, st.0, evts.drop_first());
        assert forall|i: int| 0 <= i < evts.drop_first().len() - 1 implies {
            &&& !(#[trigger] pd_run(d1.m.t, d1.m.s, evts.drop_first()).1[i] is Frame)
            &&& !(pd_run(d1.m.t, d1.m.s, evts.drop_first()).1[i] is Repeat)
        } by {
            assert(prr.1[i] == pr.1[i + 1]);
            assert(!(pd_run(d.m.t, d.m.s, evts).1[i + 1] is Frame) && !(pd_run(
                d.m.t,
                d.m.s,
                evts,
            ).1[i + 1] is Repeat));
        }
        lemma_nec_lift(d1, evts.drop_first());
        if evts.len() >= 2 {
            assert(pr.1.last() == prr.1.last());
        }
        assert(forall|i: int|
            0 <= i < evts.len() ==> nr.1[i] == nec_output_map(d.variant, d.last, #[trigger] pr.1[i]))
            by {
            assert(forall|i: int| 1 <= i < evts.len() ==> #[trigger] nr.1[i] == nrr.1[i - 1]);
            assert(forall|i: int| 1 <= i < evts.len() ==> #[trigger] pr.1[i] == prr.1[i - 1]);
        }
    }
}

/// Decoding the payload the encoder builds recovers the address and the
/// command, for every variant: the complement and vendor checks pass by
/// construction.
pub proof fn lemma_nec_validate_payload(variant: NecVariant, addr: u8, cmd: u8)
    ensures
        nec_validate(variant, nec_payload(variant, addr, cmd)) == Some(
            NecCommand { addr, cmd, repeat: false },
        ),
{
    let p = nec_payload(variant, addr, cmd);
    match variant {
        NecVariant::Standard => {
            assert((p >> 8) & 0xFF == (p & 0xFF) ^ 0xFF && (p >> 24) & 0xFF == ((p >> 16) & 0xFF)
                ^ 0xFF && (p & 0xFF) as u8 == addr && ((p >> 16) & 0xFF) as u8 == cmd)
                by (bit_vector)
                requires
                    p == (addr as u32) | (((addr ^ 0xFF) as u32) << 8) | ((cmd as u32) << 16) | (((
                    cmd ^ 0xFF) as u32) << 24),
            ;
        },
        NecVariant::Samsung => {
            assert((p & 0xFF) as u8 == addr && ((p >> 16) & 0xFF) as u8 == cmd) by (bit_vector)
                requires
                    p == (addr as u32) | ((addr as u32) << 8) | ((cmd as u32) << 16) | (((cmd
                        ^ 0xFF) as u32) << 24),
            ;
        },
        NecVariant::Apple => {
            assert(p & 0xFFFF == 0x87EE && ((p >> 24) & 0xFF) as u8 == addr && ((p >> 16)
                & 0xFF) as u8 == cmd) by (bit_vector)
                requires
                    p == 0x87EEu32 | ((cmd as u32) << 16) | ((addr as u32) << 24),
            ;
        },
    }
}

/// Every 32-bit payload fits in 32 bits.
proof fn lemma_payload_fits(p: u32)
    ensures
        p & low_mask(32) == p,
{
    assert(p & 0xffff_ffffu32 == p) by (bit_vector);
}

/// At any sampling rate from the stated minimum up, the decoder's
/// windows accept the encoder's nominal symbols and classify them
/// unambiguously.
proof fn lemma_nec_compat(d: NecDecoder)
    requires
        d.wf(),
        NEC_MIN_RATE_HZ <= d.rate,
    ensures
        pd_compat(d.m.t, nec_nominal_ticks(d.variant, d.rate as int)),
        pd_repeat_compat(d.m.t, nec_nominal_ticks(d.variant, d.rate as int)),
{
    let r = d.rate as int;
    // Tick counts are small enough that the conversions stay exact.
    lemma_ticks_bounds(9000, r);
    lemma_ticks_bounds(4500, r);
    lemma_ticks_bounds(2250, r);
    lemma_ticks_bounds(562, r);
    lemma_ticks_bounds(1687, r);
    lemma_ticks_bounds(20_000, r);
    // Every nominal stays below the abandon threshold.
    lemma_ticks_ordered(9000, 20_000, r);
    lemma_ticks_ordered(4500, 20_000, r);
    lemma_ticks_ordered(2250, 20_000, r);
    lemma_ticks_ordered(562, 20_000, r);
    lemma_ticks_ordered(1687, 20_000, r);
    // Every window accepts its own nominal.
    lemma_nominal_in_window(9000, 25, r);
    lemma_nominal_in_window(4500, 25, r);
    lemma_nominal_in_window(2250, 25, r);
    lemma_nominal_in_window(562, 25, r);
    lemma_nominal_in_window(1687, 25, r);
    // A one space stays strictly above the zero-space window.
    assert(r * (100 * 1687 - 562 * (100 + 25)) >= 200_000_000) by (nonlinear_arith)
        requires
            r >= 3_559,
    ;
    lemma_window_below_ticks(562, 25, 1687, r);
    // A repeat space stays strictly below the header-space window.
    assert(r * (4500 * (100 - 25) - 100 * 2250) >= 200_000_000) by (nonlinear_arith)
        requires
            r >= 3_559,
    ;
    lemma_ticks_below_window(2250, 4500, 25, r);
    match d.variant {
        NecVariant::Samsung => {
            assert(nec_nominal_us(d.variant).header_pulse == 4500);
        },
        _ => {
            assert(nec_nominal_us(d.variant).header_pulse == 9000);
        },
    }
}

/// Round trip: from idle, the event stream the encoder produces for
/// (addr, cmd) at the decoder's own rate decodes to exactly that command
/// with the repeat flag clear; every earlier event reports a frame in
/// flight, and the decoder ends idle, remembering the command.
pub proof fn lemma_nec_round_trip(d: NecDecoder, addr: u8, cmd: u8)
    requires
        d.wf(),
        NEC_MIN_RATE_HZ <= d.rate,
        d.m.s == PdState::Idle,
    ensures
        ({
            let evts = pd_frame_events(
                nec_nominal_ticks(d.variant, d.rate as int),
                nec_payload(d.variant, addr, cmd),
                32,
            );
            let nr = nec_run(d, evts);
            &&& nr.1.len() == 67
            &&& nr.1.last() == DecodeResult::Done(NecCommand { addr, cmd, repeat: false })
            &&& forall|i: int| 0 <= i < 66 ==> nr.1[i] == DecodeResult::<NecCommand>::InProgress
            &&& nr.0.m.s == PdState::Idle
            &&& nr.0.last == Some(NecCommand { addr, cmd, repeat: false })
        }),
{
    let nom = nec_nominal_ticks(d.variant, d.rate as int);
    let p = nec_payload(d.variant, addr, cmd);
    let evts = pd_frame_events(nom, p, 32);
    lemma_nec_compat(d);
    lemma_payload_fits(p);
    lemma_pd_frame_events_index(nom, p, 32, 0);
    assert(evts.len() == 67);
    lemma_pd_frame(d.m.t, nom, p);
    lemma_nec_lift(d, evts);
    lemma_nec_validate_payload(d.variant, addr, cmd);
    let pr = pd_run(d.m.t, d.m.s, evts);
    let nr = nec_run(d, evts);
    assert(pd_run(d.m.t, PdState::Idle, evts) == pr);
    assert(pr.1.len() == 67);
    assert(pr.1.last() == PdOutput::Frame(p));
    assert(nr.1.last() == nec_output_map(d.variant, d.last, pr.1[66]));
    assert forall|i: int| 0 <= i < 66 implies nr.1[i] == DecodeResult::<NecCommand>::InProgress by {
        assert(pr.1[i] == PdOutput::Working);
        assert(nr.1[i] == nec_output_map(d.variant, d.last, pr.1[i]));
    }
    assert(nr.0.last == nec_last_update(d.variant, d.last, pr.1.last()));
}

/// Rate invariance: two decoders built at different sampling rates, each
/// fed the same frame as measured in its own time base, decode the same
/// command — provided both rates resolve the shortest symbol (at least
/// twice its rate).
pub proof fn lemma_nec_rate_invariance(d1: NecDecoder, d2: NecDecoder, addr: u8, cmd: u8)
    requires
        d1.wf(),
        d2.wf(),
        d1.variant == d2.variant,
        NEC_MIN_RATE_HZ <= d1.rate,
        NEC_MIN_RATE_HZ <= d2.rate,
        d1.m.s == PdState::Idle,
        d2.m.s == PdState::Idle,
    ensures
        ({
            let p = nec_payload(d1.variant, addr, cmd);
            let e1 = pd_frame_events(nec_nominal_ticks(d1.variant, d1.rate as int), p, 32);
            let e2 = pd_frame_events(nec_nominal_ticks(d2.variant, d2.rate as int), p, 32);
            &&& nec_run(d1, e1).1.last() == nec_run(d2, e2).1.last()
            &&& nec_run(d1, e1).1.last() == DecodeResult::Done(
                NecCommand { addr, cmd, repeat: false },
            )
        }),
{
    lemma_nec_round_trip(d1, addr, cmd);
    lemma_nec_round_trip(d2, addr, cmd);
}

/// Repeat round trip: from idle with a previous command remembered, the
/// encoder's repeat-frame events re-emit that command with the repeat flag
/// set.
pub proof fn lemma_nec_repeat_round_trip(d: NecDecoder, c: NecCommand)
    requires
        d.wf(),
        NEC_MIN_RATE_HZ <= d.rate,
        d.m.s == PdState::Idle,
        d.last == Some(c),
    ensures
        ({
            let evts = pd_repeat_events(nec_nominal_ticks(d.variant, d.rate as int));
            let nr = nec_run(d, evts);
            &&& nr.1.len() == 3
            &&& nr.1[0] == DecodeResult::<NecCommand>::InProgress
            &&& nr.1[1] == DecodeResult::<NecCommand>::InProgress
            &&& nr.1[2] == DecodeResult::Done(NecCommand { addr: c.addr, cmd: c.cmd, repeat: true })
            &&& nr.0.m.s == PdState::Idle
            &&& nr.0.last == Some(c)
        }),
{
    let nom = nec_nominal_ticks(d.variant, d.rate as int);
    let evts = pd_repeat_events(nom);
    lemma_nec_compat(d);
    lemma_pd_repeat(d.m.t, nom);
    lemma_nec_lift(d, evts);
    let pr = pd_run(d.m.t, d.m.s, evts);
    let nr = nec_run(d, evts);
    assert(pr.1[2] == PdOutput::Repeat);
    assert(pr.1.last() == PdOutput::Repeat);
    assert(nr.1[0] == nec_output_map(d.variant, d.last, pr.1[0]));
    assert(nr.1[1] == nec_output_map(d.variant, d.last, pr.1[1]));
    assert(nr.1[2] == nec_output_map(d.variant, d.last, pr.1[2]));
}

/// Build the 32-bit payload for (addr, cmd); exactly `nec_payload`.
pub fn nec_payload_exec(variant: NecVariant, addr: u8, cmd: u8) -> (p: u32)
    ensures
        p == nec_payload(variant, addr, cmd),
{
    match variant {
        NecVariant::Standard => (addr as u32) | (((addr ^ 0xFF) as u32) << 8) | ((cmd as u32)
            << 16) | (((cmd ^ 0xFF) as u32) << 24),
        NecVariant::Samsung => (addr as u32) | ((addr as u32) << 8) | ((cmd as u32) << 16) | (((cmd
            ^ 0xFF) as u32) << 24),
        NecVariant::Apple => APPLE_VENDOR | ((cmd as u32) << 16) | ((addr as u32) << 24),
    }
}

/// Encode one frame into an interval buffer: 67 intervals whose events are
/// exactly the frame events of the payload at the given rate.
#[verifier::loop_isolation(false)]
pub fn nec_encode(variant: NecVariant, addr: u8, cmd: u8, rate: u32) -> (b: IntervalBuffer)
    requires
        1 <= rate <= 1_000_000,
    ensures
        b@.len() == 67,
        events_of_intervals(b@) == pd_frame_events(
            nec_nominal_ticks(variant, rate as int),
            nec_payload(variant, addr, cmd),
            32,
        ),
{
    let nomus = match variant {
        NecVariant::Samsung => PdNominal {
            header_pulse: 4500,
            header_space: 4500,
            repeat_space: 2250,
            bit_pulse: 562,
            zero_space: 562,
            one_space: 1687,
        },
        _ => PdNominal {
            header_pulse: 9000,
            header_space: 4500,
            repeat_space: 2250,
            bit_pulse: 562,
            zero_space: 562,
            one_space: 1687,
        },
    };
    assert(nomus == nec_nominal_us(variant));
    let nom = PdNominal {
        header_pulse: ticks(nomus.header_pulse, rate),
        header_space: ticks(nomus.header_space, rate),
        repeat_space: ticks(nomus.repeat_space, rate),
        bit_pulse: ticks(nomus.bit_pulse, rate),
        zero_space: ticks(nomus.zero_space, rate),
        one_space: ticks(nomus.one_space, rate),
    };
    assert(nom == nec_nominal_ticks(variant, rate as int));
    let p = nec_payload_exec(variant, addr, cmd);
    let mut v: Vec<u32> = Vec::new();
    v.push(nom.header_pulse);
    v.push(nom.header_space);
    let mut i: u32 = 0;
    while i < 32
        invariant
            i <= 32,
            v@.len() == 2 + 2 * i,
            v@[0] == nom.header_pulse,
            v@[1] == nom.header_space,
            forall|j: int| 2 <= j < v@.len() && j % 2 == 0 ==> v@[j] == nom.bit_pulse,
            forall|j: int|
                3 <= j < v@.len() && j % 2 == 1 ==> v@[j] == (if bit_of(p, ((j - 3) / 2) as u32) {
                    nom.one_space
                } else {
                    nom.zero_space
                }),
        decreases 32 - i,
    {
        v.push(nom.bit_pulse);
        if (p >> i) & 1 == 1 {
            v.push(nom.one_space);
        } else {
            v.push(nom.zero_space);
        }
        proof {
            assert((2 + 2 * i + 1 - 3) / 2 == i as int);
        }
        i = i + 1;
    }
    v.push(nom.bit_pulse);
    proof {
        lemma_pd_frame_events_index(nom, p, 32, 0);
        let fe = pd_frame_events(nom, p, 32);
        assert forall|j: int| 0 <= j < 67 implies events_of_intervals(v@)[j] == fe[j] by {
            lemma_pd_frame_events_index(nom, p, 32, j);
        }
        assert(events_of_intervals(v@) =~= fe);
    }
    IntervalBuffer { intervals: v }
}

/// Encode a repeat frame: header pulse, repeat space and the trailing burst.
pub fn nec_encode_repeat(variant: NecVariant, rate: u32) -> (b: IntervalBuffer)
    requires
        1 <= rate <= 1_000_000,
    ensures
        b@.len() == 3,
        events_of_intervals(b@) == pd_repeat_events(nec_nominal_ticks(variant, rate as int)),
{
    let nomus = match variant {
        NecVariant::Samsung => PdNominal {
            header_pulse: 4500,
            header_space: 4500,
            repeat_space: 2250,
            bit_pulse: 562,
            zero_space: 562,
            one_space: 1687,
        },
        _ => PdNominal {
            header_pulse: 9000,
            header_space: 4500,
            repeat_space: 2250,
            bit_pulse: 562,
            zero_space: 562,
            one_space: 1687,
        },
    };
    assert(nomus == nec_nominal_us(variant));
    let mut v: Vec<u32> = Vec::new();
    v.push(ticks(nomus.header_pulse, rate));
    v.push(ticks(nomus.repeat_space, rate));
    v.push(ticks(nomus.bit_pulse, rate));
    proof {
        assert(events_of_intervals(v@) =~= pd_repeat_events(
            nec_nominal_ticks(variant, rate as int),
        ));
    }
    IntervalBuffer { intervals: v }
}

/// Extract and validate a received payload; exactly `nec_validate`.
pub fn nec_validate_exec(variant: NecVariant, p: u32) -> (r: Option<NecCommand>)
    ensures
        r == nec_validate(variant, p),
{
    proof {
        assert(p & 0xFF < 256 && (p >> 8) & 0xFF < 256 && (p >> 16) & 0xFF < 256 && (p >> 24)
            & 0xFF < 256) by (bit_vector);
    }
    match variant {
        NecVariant::Standard => {
            let addr = (p & 0xFF) as u8;
            let cmd = ((p >> 16) & 0xFF) as u8;
            if ((p >> 8) & 0xFF) as u8 == addr ^ 0xFF && ((p >> 24) & 0xFF) as u8 == cmd ^ 0xFF {
                Some(NecCommand { addr, cmd, repeat: false })
            } else {
                None
            }
        },
        NecVariant::Samsung => Some(
            NecCommand { addr: (p & 0xFF) as u8, cmd: ((p >> 16) & 0xFF) as u8, repeat: false },
        ),
        NecVariant::Apple => {
            if p & 0xFFFF == APPLE_VENDOR {
                Some(
                    NecCommand {
                        addr: ((p >> 24) & 0xFF) as u8,
                        cmd: ((p >> 16) & 0xFF) as u8,
                        repeat: false,
                    },
                )
            } else {
                None
            }
        },
    }
}

} // verus!
