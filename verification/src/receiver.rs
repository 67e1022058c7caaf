//! Receivers: one decoder (or several in lockstep) bound to a sampling
//! adapter, polled with the current pin level or fed edge events.

use vstd::prelude::*;
use crate::adapter::{periodic_spec_sample, PeriodicPoll};
use crate::cmd::{DecodeResult, DecoderError, NecCommand, Rc5Command, Rc6Command};
use crate::nec::{
    lemma_nec_ignores_short_marks, lemma_nec_run_len, nec_run, nec_spec_event, NecDecoder,
    NecVariant,
};
use crate::protocol::Protocol;
use crate::pulsedist::PdState;
use crate::range::{
    lemma_scaled_ticks_le, lemma_ticks_below_window, lemma_ticks_bounds, ticks_of,
};
use crate::rc5::{
    lemma_rc5_events_dur_bound, lemma_rc5_round_trip, lemma_rc5_run_len, rc5_bit, rc5_events,
    rc5_levels, rc5_run, rc5_spec_event, Rc5Decoder, Rc5State, RC5_MIN_RATE_HZ, RC5_UNIT_US,
};
use crate::rc6::{
    lemma_rc6_ignores_short_marks, lemma_rc6_run_len, rc6_run, rc6_spec_event, Rc6Decoder,
    Rc6State,
};
use crate::remote::{spec_button, Button, RemoteControl};

verus! {

/// The command a decoder result carries, if it completed a frame.
pub open spec fn completed<C>(r: DecodeResult<C>) -> Option<C> {
    match r {
        DecodeResult::Done(c) => Some(c),
        _ => None,
    }
}

/// A decoder result folded into the receiver's return shape: a completed
/// command, a reported error, or nothing this tick.
pub open spec fn as_poll_result<C>(r: DecodeResult<C>) -> Result<Option<C>, DecoderError> {
    match r {
        DecodeResult::Done(c) => Ok(Some(c)),
        DecodeResult::Failed(e) => Err(e),
        _ => Ok(None),
    }
}

/// A single-protocol receiver polled at a fixed rate: the decoder plus
/// the level/duration synthesiser.
pub struct PeriodicReceiver<D: Protocol> {
    pub decoder: D,
    pub adapter: PeriodicPoll,
}

/// The receiver after one poll, and what the poll returned.
pub open spec fn periodic_spec_poll<D: Protocol>(r: PeriodicReceiver<D>, mark: bool) -> (
    PeriodicReceiver<D>,
    Result<Option<<D as Protocol>::Cmd>, DecoderError>,
) {
    let st = periodic_spec_sample(r.adapter, mark);
    match st.1 {
        None => (PeriodicReceiver { decoder: r.decoder, adapter: st.0 }, Ok(None)),
        Some(ev) => {
            let dn = r.decoder.next(ev.0, ev.1);
            (PeriodicReceiver { decoder: dn.0, adapter: st.0 }, as_poll_result(dn.1))
        },
    }
}

impl<D: Protocol> PeriodicReceiver<D> {
    pub open spec fn wf(self) -> bool {
        self.decoder.inv()
    }

    /// Bind a decoder to a fresh poller.
    pub fn new(decoder: D) -> (r: PeriodicReceiver<D>)
        requires
            decoder.inv(),
        ensures
            r.wf(),
            r.decoder == decoder,
            r.adapter == (PeriodicPoll { level: false, count: 0u32 }),
    {
        PeriodicReceiver { decoder, adapter: PeriodicPoll::new() }
    }

    /// Sample the pin level for this tick (true is carrier-on) and drive
    /// the decoder with the event, if the level changed; exactly
    /// `periodic_spec_poll`.
    pub fn poll(&mut self, mark: bool) -> (r: Result<Option<<D as Protocol>::Cmd>, DecoderError>)
        requires
            old(self).wf(),
        ensures
            final(self).wf(),
            (*final(self), r) == periodic_spec_poll(*old(self), mark),
    {
        match self.adapter.sample(mark) {
            None => Ok(None),
            Some((ended, dur)) => {
                match self.decoder.event(ended, dur) {
                    DecodeResult::Done(c) => Ok(Some(c)),
                    DecodeResult::Failed(e) => Err(e),
                    DecodeResult::Idle => Ok(None),
                    DecodeResult::InProgress => Ok(None),
                }
            },
        }
    }
}

impl PeriodicReceiver<NecDecoder> {
    /// Poll and translate in one step: a completed command is looked up
    /// in the remote's table, so the caller sees logical buttons. A
    /// command addressed to another device polls as `Ok(None)`.
    pub fn poll_remote(&mut self, mark: bool, remote: &RemoteControl) -> (r: Result<
        Option<Button>,
        DecoderError,
    >)
        requires
            old(self).wf(),
        ensures
            final(self).wf(),
            ({
                let st = periodic_spec_poll(*old(self), mark);
                &&& *final(self) == st.0
                &&& r == (match st.1 {
                    Ok(c_opt) => Ok::<Option<Button>, DecoderError>(
                        match c_opt {
                            Some(c) => spec_button(*remote, c),
                            None => None,
                        },
                    ),
                    Err(e) => Err::<Option<Button>, DecoderError>(e),
                })
            }),
    {
        match self.poll(mark) {
            Ok(Some(c)) => Ok(remote.button(&c)),
            Ok(None) => Ok(None),
            Err(e) => Err(e),
        }
    }
}

/// A single-protocol receiver fed from an edge interrupt: the caller
/// reports the ticks since the previous edge and the new pin level.
pub struct EventReceiver<D: Protocol> {
    pub decoder: D,
}

/// The receiver after one edge, and what it returned: the period that
/// just ended had the opposite of the new level.
pub open spec fn event_spec_edge<D: Protocol>(r: EventReceiver<D>, dt: u32, mark: bool) -> (
    EventReceiver<D>,
    Result<Option<<D as Protocol>::Cmd>, DecoderError>,
) {
    let dn = r.decoder.next(!mark, dt);
    (EventReceiver { decoder: dn.0 }, as_poll_result(dn.1))
}

impl<D: Protocol> EventReceiver<D> {
    pub open spec fn wf(self) -> bool {
        self.decoder.inv()
    }

    /// Wrap a decoder.
    pub fn new(decoder: D) -> (r: EventReceiver<D>)
        requires
            decoder.inv(),
        ensures
            r.wf(),
            r.decoder == decoder,
    {
        EventReceiver { decoder }
    }

    /// Report an edge: `dt` ticks since the previous edge, and the level
    /// the pin has now (true is carrier-on); exactly `event_spec_edge`.
    pub fn edge(&mut self, dt: u32, mark: bool) -> (r: Result<
        Option<<D as Protocol>::Cmd>,
        DecoderError,
    >)
        requires
            old(self).wf(),
        ensures
            final(self).wf(),
            (*final(self), r) == event_spec_edge(*old(self), dt, mark),
    {
        match self.decoder.event(!mark, dt) {
            DecodeResult::Done(c) => Ok(Some(c)),
            DecodeResult::Failed(e) => Err(e),
            DecodeResult::Idle => Ok(None),
            DecodeResult::InProgress => Ok(None),
        }
    }
}

/// Three decoders run in lockstep against the same input stream. Each
/// slot of the result belongs to one protocol; an error in one decoder
/// only resets that decoder and never disturbs its siblings.
pub struct MultiReceiver {
    pub nec: NecDecoder,
    pub rc5: Rc5Decoder,
    pub rc6: Rc6Decoder,
    pub adapter: PeriodicPoll,
}

/// All three decoders after one event, and the commands that completed.
pub open spec fn multi_spec_event(m: MultiReceiver, mark: bool, dur: u32) -> (
    MultiReceiver,
    (Option<NecCommand>, Option<Rc5Command>, Option<Rc6Command>),
) {
    let n = nec_spec_event(m.nec, mark, dur);
    let r5 = rc5_spec_event(m.rc5, mark, dur);
    let r6 = rc6_spec_event(m.rc6, mark, dur);
    (
        MultiReceiver { nec: n.0, rc5: r5.0, rc6: r6.0, adapter: m.adapter },
        (completed(n.1), completed(r5.1), completed(r6.1)),
    )
}

/// The multi-receiver after one poll: nothing happens until the level
/// changes, then every decoder sees the same event.
pub open spec fn multi_spec_poll(m: MultiReceiver, mark: bool) -> (
    MultiReceiver,
    (Option<NecCommand>, Option<Rc5Command>, Option<Rc6Command>),
) {
    let st = periodic_spec_sample(m.adapter, mark);
    match st.1 {
        None => (MultiReceiver { adapter: st.0, ..m }, (None, None, None)),
        Some(ev) => {
            let r = multi_spec_event(MultiReceiver { adapter: st.0, ..m }, ev.0, ev.1);
            (r.0, r.1)
        },
    }
}

impl MultiReceiver {
    pub open spec fn wf(self) -> bool {
        &&& self.nec.wf()
        &&& self.rc5.wf()
        &&& self.rc6.wf()
    }

    /// Build NEC, RC-5 and RC-6 decoders sharing one time base.
    pub fn new(rate: u32, variant: NecVariant) -> (r: MultiReceiver)
        requires
            1 <= rate <= 1_000_000,
        ensures
            r.wf(),
            r.nec.rate == rate && r.nec.variant == variant && r.nec.m.s is Idle && r.nec.last
                is None,
            r.rc5.rate == rate && r.rc5.s is Idle,
            r.rc6.rate == rate && r.rc6.s is Idle,
            r.adapter == (PeriodicPoll { level: false, count: 0u32 }),
    {
        MultiReceiver {
            nec: NecDecoder::new(rate, variant),
            rc5: Rc5Decoder::new(rate),
            rc6: Rc6Decoder::new(rate),
            adapter: PeriodicPoll::new(),
        }
    }

    /// Distribute one (level, duration) event to every decoder; exactly
    /// `multi_spec_event`.
    pub fn event(&mut self, mark: bool, dur: u32) -> (r: (
        Option<NecCommand>,
        Option<Rc5Command>,
        Option<Rc6Command>,
    ))
        requires
            old(self).wf(),
        ensures
            final(self).wf(),
            (*final(self), r) == multi_spec_event(*old(self), mark, dur),
    {
        let n = match self.nec.event(mark, dur) {
            DecodeResult::Done(c) => Some(c),
            _ => None,
        };
        let r5 = match self.rc5.event(mark, dur) {
            DecodeResult::Done(c) => Some(c),
            _ => None,
        };
        let r6 = match self.rc6.event(mark, dur) {
            DecodeResult::Done(c) => Some(c),
            _ => None,
        };
        (n, r5, r6)
    }

    /// Sample the pin level for this tick and, when the level changes,
    /// hand the ended period to every decoder; exactly `multi_spec_poll`.
    pub fn poll(&mut self, mark: bool) -> (r: (
        Option<NecCommand>,
        Option<Rc5Command>,
        Option<Rc6Command>,
    ))
        requires
            old(self).wf(),
        ensures
            final(self).wf(),
            (*final(self), r) == multi_spec_poll(*old(self), mark),
    {
        match self.adapter.sample(mark) {
            None => (None, None, None),
            Some((ended, dur)) => self.event(ended, dur),
        }
    }
}


/// Run the decoder bank over a sequence of (mark, duration) events.
pub open spec fn multi_run(m: MultiReceiver, evts: Seq<(bool, u32)>) -> (
    MultiReceiver,
    Seq<(Option<NecCommand>, Option<Rc5Command>, Option<Rc6Command>)>,
)
    decreases evts.len(),
{
    if evts.len() == 0 {
        (m, Seq::empty())
    } else {
        let first = multi_spec_event(m, evts[0].0, evts[0].1);
        let rest = multi_run(first.0, evts.drop_first());
        (rest.0, seq![first.1] + rest.1)
    }
}

/// The bank is the product of its members: each decoder evolves exactly
/// as it would alone, and each slot reports that decoder's completions.
pub proof fn lemma_multi_run_components(m: MultiReceiver, evts: Seq<(bool, u32)>)
    ensures
        ({
            let mr = multi_run(m, evts);
            let nr = nec_run(m.nec, evts);
            let r5 = rc5_run(m.rc5, evts);
            let r6 = rc6_run(m.rc6, evts);
            &&& mr.0.nec == nr.0
            &&& mr.0.rc5 == r5.0
            &&& mr.0.rc6 == r6.0
            &&& mr.0.adapter == m.adapter
            &&& mr.1.len() == evts.len()
            &&& forall|i: int|
                0 <= i < evts.len() ==> #[trigger] mr.1[i] == (
                    completed(nr.1[i]),
                    completed(r5.1[i]),
                    completed(r6.1[i]),
                )
        }),
    decreases evts.len(),
{
    reveal_with_fuel(multi_run, 2);
    reveal_with_fuel(nec_run, 2);
    reveal_with_fuel(rc5_run, 2);
    reveal_with_fuel(rc6_run, 2);
    if evts.len() > 0 {
        let st = multi_spec_event(m, evts[0].0, evts[0].1);
        lemma_multi_run_components(st.0, evts.drop_first());
        lemma_nec_run_len(st.0.nec, evts.drop_first());
        lemma_rc5_run_len(st.0.rc5, evts.drop_first());
        lemma_rc6_run_len(st.0.rc6, evts.drop_first());
        let mr = multi_run(m, evts);
        let mrr = multi_run(st.0, evts.drop_first());
        let nr = nec_run(m.nec, evts);
        let r5 = rc5_run(m.rc5, evts);
        let r6 = rc6_run(m.rc6, evts);
        assert(mr.1 == seq![st.1] + mrr.1);
        assert(nr.1 == seq![nec_spec_event(m.nec, evts[0].0, evts[0].1).1] + nec_run(
            st.0.nec,
            evts.drop_first(),
        ).1);
        assert(r5.1 == seq![rc5_spec_event(m.rc5, evts[0].0, evts[0].1).1] + rc5_run(
            st.0.rc5,
            evts.drop_first(),
        ).1);
        assert(r6.1 == seq![rc6_spec_event(m.rc6, evts[0].0, evts[0].1).1] + rc6_run(
            st.0.rc6,
            evts.drop_first(),
        ).1);
        assert forall|i: int|
            0 <= i < evts.len() implies #[trigger] mr.1[i] == (
            completed(nr.1[i]),
            completed(r5.1[i]),
            completed(r6.1[i]),
        ) by {
            if i >= 1 {
                assert(mr.1[i] == mrr.1[i - 1]);
                assert(nr.1[i] == nec_run(st.0.nec, evts.drop_first()).1[i - 1]);
                assert(r5.1[i] == rc5_run(st.0.rc5, evts.drop_first()).1[i - 1]);
                assert(r6.1[i] == rc6_run(st.0.rc6, evts.drop_first()).1[i - 1]);
            }
        }
    }
}

/// A frame of one protocol completes only in its own slot: an RC-5 frame
/// keeps the NEC and RC-6 decoders hunting for their (much longer)
/// opening pulses throughout, so only the RC-5 slot ever reports a
/// command, and it reports exactly the encoded one, exactly once. No
/// error surfaces in any slot.
pub proof fn lemma_multi_rc5_frame_only_rc5(m: MultiReceiver, c: Rc5Command, gap: u32)
    requires
        m.wf(),
        m.nec.rate == m.rc5.rate,
        m.rc6.rate == m.rc5.rate,
        RC5_MIN_RATE_HZ <= m.rc5.rate,
        m.nec.m.s == PdState::Idle,
        m.rc5.s == Rc5State::Idle,
        m.rc6.s == Rc6State::Idle,
        c.addr < 32,
        c.cmd < 64,
    ensures
        ({
            let evts = seq![(false, gap)] + rc5_events(
                rc5_levels(c),
                1,
                ticks_of(RC5_UNIT_US as int, m.rc5.rate as int) as u32,
            );
            let mr = multi_run(m, evts);
            let donei = if rc5_bit(c, 13) {
                evts.len() - 2
            } else {
                evts.len() - 1
            };
            &&& forall|i: int|
                0 <= i < evts.len() ==> (#[trigger] mr.1[i]).0 is None && mr.1[i].2 is None
            &&& mr.1[donei as int].1 == Some(c)
            &&& forall|i: int|
                0 <= i < evts.len() && i != donei ==> (#[trigger] mr.1[i]).1 is None
        }),
{
    let r = m.rc5.rate as int;
    lemma_ticks_bounds(889, r);
    let unit: u32 = ticks_of(889, r) as u32;
    let lv = rc5_levels(c);
    let tail = rc5_events(lv, 1, unit);
    let evts = seq![(false, gap)] + tail;
    lemma_multi_run_components(m, evts);
    // The RC-5 decoder completes the frame, once.
    lemma_rc5_round_trip(m.rc5, c, gap);
    lemma_rc5_run_len(m.rc5, evts);
    // Every carrier-on period of the frame is at most two half-bit
    // units, far below the NEC header and the RC-6 leader.
    lemma_rc5_events_dur_bound(lv, 1, unit);
    lemma_scaled_ticks_le(889, 2, r);
    assert(r * (9000 * (100 - 25) - 100 * 1778) >= 200_000_000) by (nonlinear_arith)
        requires
            r >= 6_000,
    ;
    lemma_ticks_below_window(1778, 9000, 25, r);
    assert(r * (4500 * (100 - 25) - 100 * 1778) >= 200_000_000) by (nonlinear_arith)
        requires
            r >= 6_000,
    ;
    lemma_ticks_below_window(1778, 4500, 25, r);
    assert(r * (2666 * (100 - 15) - 100 * 1778) >= 200_000_000) by (nonlinear_arith)
        requires
            r >= 6_000,
    ;
    lemma_ticks_below_window(1778, 2666, 15, r);
    assert forall|i: int| 0 <= i < evts.len() implies ((#[trigger] evts[i]).0 ==> evts[i].1
        < m.nec.m.t.header_pulse.lo && evts[i].1 < m.rc6.leader.lo) by {
        if i >= 1 {
            assert(evts[i] == tail[i - 1]);
            assert(tail[i - 1].1 <= 2 * unit);
        }
    }
    lemma_nec_ignores_short_marks(m.nec, evts);
    lemma_nec_run_len(m.nec, evts);
    lemma_rc6_ignores_short_marks(m.rc6, evts);
    lemma_rc6_run_len(m.rc6, evts);
    let mr = multi_run(m, evts);
    let nr = nec_run(m.nec, evts);
    let r5 = rc5_run(m.rc5, evts);
    let r6 = rc6_run(m.rc6, evts);
    let donei = if rc5_bit(c, 13) {
        evts.len() - 2
    } else {
        evts.len() - 1
    };
    assert forall|i: int| 0 <= i < evts.len() implies (#[trigger] mr.1[i]).0 is None
        && mr.1[i].2 is None by {
        assert(mr.1[i] == (completed(nr.1[i]), completed(r5.1[i]), completed(r6.1[i])));
        assert(!(nr.1[i] is Done));
        assert(!(r6.1[i] is Done));
    }
    assert(mr.1[donei as int] == (
        completed(nr.1[donei as int]),
        completed(r5.1[donei as int]),
        completed(r6.1[donei as int]),
    ));
    assert(r5.1[donei as int] == DecodeResult::Done(c));
    assert forall|i: int| 0 <= i < evts.len() && i != donei implies (#[trigger]
    mr.1[i]).1 is None by {
        assert(mr.1[i] == (completed(nr.1[i]), completed(r5.1[i]), completed(r6.1[i])));
        if i < donei {
            assert(r5.1[i] == DecodeResult::<Rc5Command>::InProgress);
        } else {
            assert(r5.1[i] == DecodeResult::<Rc5Command>::Idle);
        }
    }
}

/// A bank of two decoders of chosen protocols run in lockstep against
/// the same input stream, one result slot per decoder. An error in one
/// decoder only resets that decoder. (The fixed NEC/RC-5/RC-6 bank above
/// additionally carries the slot-isolation theorem.)
pub struct MultiReceiver2<P0: Protocol, P1: Protocol> {
    pub d0: P0,
    pub d1: P1,
    pub adapter: PeriodicPoll,
}

/// All decoders of the bank after one event, and the commands that
/// completed.
pub open spec fn multi2_spec_event<P0: Protocol, P1: Protocol>(
    m: MultiReceiver2<P0, P1>,
    mark: bool,
    dur: u32,
) -> (MultiReceiver2<P0, P1>, (Option<<P0 as Protocol>::Cmd>, Option<<P1 as Protocol>::Cmd>)) {
    let s0 = m.d0.next(mark, dur);
    let s1 = m.d1.next(mark, dur);
    (
        MultiReceiver2 { d0: s0.0, d1: s1.0, adapter: m.adapter },
        (completed(s0.1), completed(s1.1)),
    )
}

/// The bank after one poll: nothing happens until the level changes,
/// then every decoder sees the same event.
pub open spec fn multi2_spec_poll<P0: Protocol, P1: Protocol>(
    m: MultiReceiver2<P0, P1>,
    mark: bool,
) -> (MultiReceiver2<P0, P1>, (Option<<P0 as Protocol>::Cmd>, Option<<P1 as Protocol>::Cmd>)) {
    let st = periodic_spec_sample(m.adapter, mark);
    match st.1 {
        None => (
            MultiReceiver2 { d0: m.d0, d1: m.d1, adapter: st.0 },
            (None, None),
        ),
        Some(ev) => multi2_spec_event(
            MultiReceiver2 { d0: m.d0, d1: m.d1, adapter: st.0 },
            ev.0,
            ev.1,
        ),
    }
}

impl<P0: Protocol, P1: Protocol> MultiReceiver2<P0, P1> {
    pub open spec fn wf(self) -> bool {
        &&& self.d0.inv()
        &&& self.d1.inv()
    }

    /// Bind the decoders to a fresh poller sharing one time base.
    pub fn new(d0: P0, d1: P1) -> (r: MultiReceiver2<P0, P1>)
        requires
            d0.inv(),
            d1.inv(),
        ensures
            r.wf(),
            r.d0 == d0,
            r.d1 == d1,
            r.adapter == (PeriodicPoll { level: false, count: 0u32 }),
    {
        MultiReceiver2 { d0, d1, adapter: PeriodicPoll::new() }
    }

    /// Distribute one (level, duration) event to every decoder; exactly
    /// `multi2_spec_event`.
    pub fn event(&mut self, mark: bool, dur: u32) -> (r: (Option<<P0 as Protocol>::Cmd>, Option<<P1 as Protocol>::Cmd>))
        requires
            old(self).wf(),
        ensures
            final(self).wf(),
            (*final(self), r) == multi2_spec_event(*old(self), mark, dur),
    {
        let r0 = match self.d0.event(mark, dur) {
            DecodeResult::Done(c) => Some(c),
            _ => None,
        };
        let r1 = match self.d1.event(mark, dur) {
            DecodeResult::Done(c) => Some(c),
            _ => None,
        };
        (r0, r1)
    }

    /// Sample the pin level for this tick and, when the level changes,
    /// hand the ended period to every decoder; exactly
    /// `multi2_spec_poll`.
    pub fn poll(&mut self, mark: bool) -> (r: (Option<<P0 as Protocol>::Cmd>, Option<<P1 as Protocol>::Cmd>))
        requires
            old(self).wf(),
        ensures
            final(self).wf(),
            (*final(self), r) == multi2_spec_poll(*old(self), mark),
    {
        match self.adapter.sample(mark) {
            None => (None, None),
            Some((ended, dur)) => self.event(ended, dur),
        }
    }
}

/// A bank of three decoders of chosen protocols run in lockstep against
/// the same input stream, one result slot per decoder. An error in one
/// decoder only resets that decoder. (The fixed NEC/RC-5/RC-6 bank above
/// additionally carries the slot-isolation theorem.)
pub struct MultiReceiver3<P0: Protocol, P1: Protocol, P2: Protocol> {
    pub d0: P0,
    pub d1: P1,
    pub d2: P2,
    pub adapter: PeriodicPoll,
}

/// All decoders of the bank after one event, and the commands that
/// completed.
pub open spec fn multi3_spec_event<P0: Protocol, P1: Protocol, P2: Protocol>(
    m: MultiReceiver3<P0, P1, P2>,
    mark: bool,
    dur: u32,
) -> (MultiReceiver3<P0, P1, P2>, (Option<<P0 as Protocol>::Cmd>, Option<<P1 as Protocol>::Cmd>, Option<<P2 as Protocol>::Cmd>)) {
    let s0 = m.d0.next(mark, dur);
    let s1 = m.d1.next(mark, dur);
    let s2 = m.d2.next(mark, dur);
    (
        MultiReceiver3 { d0: s0.0, d1: s1.0, d2: s2.0, adapter: m.adapter },
        (completed(s0.1), completed(s1.1), completed(s2.1)),
    )
}

/// The bank after one poll: nothing happens until the level changes,
/// then every decoder sees the same event.
pub open spec fn multi3_spec_poll<P0: Protocol, P1: Protocol, P2: Protocol>(
    m: MultiReceiver3<P0, P1, P2>,
    mark: bool,
) -> (MultiReceiver3<P0, P1, P2>, (Option<<P0 as Protocol>::Cmd>, Option<<P1 as Protocol>::Cmd>, Option<<P2 as Protocol>::Cmd>)) {
    let st = periodic_spec_sample(m.adapter, mark);
    match st.1 {
        None => (
            MultiReceiver3 { d0: m.d0, d1: m.d1, d2: m.d2, adapter: st.0 },
            (None, None, None),
        ),
        Some(ev) => multi3_spec_event(
            MultiReceiver3 { d0: m.d0, d1: m.d1, d2: m.d2, adapter: st.0 },
            ev.0,
            ev.1,
        ),
    }
}

impl<P0: Protocol, P1: Protocol, P2: Protocol> MultiReceiver3<P0, P1, P2> {
    pub open spec fn wf(self) -> bool {
        &&& self.d0.inv()
        &&& self.d1.inv()
        &&& self.d2.inv()
    }

    /// Bind the decoders to a fresh poller sharing one time base.
    pub fn new(d0: P0, d1: P1, d2: P2) -> (r: MultiReceiver3<P0, P1, P2>)
        requires
            d0.inv(),
            d1.inv(),
            d2.inv(),
        ensures
            r.wf(),
            r.d0 == d0,
            r.d1 == d1,
            r.d2 == d2,
            r.adapter == (PeriodicPoll { level: false, count: 0u32 }),
    {
        MultiReceiver3 { d0, d1, d2, adapter: PeriodicPoll::new() }
    }

    /// Distribute one (level, duration) event to every decoder; exactly
    /// `multi3_spec_event`.
    pub fn event(&mut self, mark: bool, dur: u32) -> (r: (Option<<P0 as Protocol>::Cmd>, Option<<P1 as Protocol>::Cmd>, Option<<P2 as Protocol>::Cmd>))
        requires
            old(self).wf(),
        ensures
            final(self).wf(),
            (*final(self), r) == multi3_spec_event(*old(self), mark, dur),
    {
        let r0 = match self.d0.event(mark, dur) {
            DecodeResult::Done(c) => Some(c),
            _ => None,
        };
        let r1 = match self.d1.event(mark, dur) {
            DecodeResult::Done(c) => Some(c),
            _ => None,
        };
        let r2 = match self.d2.event(mark, dur) {
            DecodeResult::Done(c) => Some(c),
            _ => None,
        };
        (r0, r1, r2)
    }

    /// Sample the pin level for this tick and, when the level changes,
    /// hand the ended period to every decoder; exactly
    /// `multi3_spec_poll`.
    pub fn poll(&mut self, mark: bool) -> (r: (Option<<P0 as Protocol>::Cmd>, Option<<P1 as Protocol>::Cmd>, Option<<P2 as Protocol>::Cmd>))
        requires
            old(self).wf(),
        ensures
            final(self).wf(),
            (*final(self), r) == multi3_spec_poll(*old(self), mark),
    {
        match self.adapter.sample(mark) {
            None => (None, None, None),
            Some((ended, dur)) => self.event(ended, dur),
        }
    }
}

/// A bank of four decoders of chosen protocols run in lockstep against
/// the same input stream, one result slot per decoder. An error in one
/// decoder only resets that decoder. (The fixed NEC/RC-5/RC-6 bank above
/// additionally carries the slot-isolation theorem.)
pub struct MultiReceiver4<P0: Protocol, P1: Protocol, P2: Protocol, P3: Protocol> {
    pub d0: P0,
    pub d1: P1,
    pub d2: P2,
    pub d3: P3,
    pub adapter: PeriodicPoll,
}

/// All decoders of the bank after one event, and the commands that
/// completed.
pub open spec fn multi4_spec_event<P0: Protocol, P1: Protocol, P2: Protocol, P3: Protocol>(
    m: MultiReceiver4<P0, P1, P2, P3>,
    mark: bool,
    dur: u32,
) -> (MultiReceiver4<P0, P1, P2, P3>, (Option<<P0 as Protocol>::Cmd>, Option<<P1 as Protocol>::Cmd>, Option<<P2 as Protocol>::Cmd>, Option<<P3 as Protocol>::Cmd>)) {
    let s0 = m.d0.next(mark, dur);
    let s1 = m.d1.next(mark, dur);
    let s2 = m.d2.next(mark, dur);
    let s3 = m.d3.next(mark, dur);
    (
        MultiReceiver4 { d0: s0.0, d1: s1.0, d2: s2.0, d3: s3.0, adapter: m.adapter },
        (completed(s0.1), completed(s1.1), completed(s2.1), completed(s3.1)),
    )
}

/// The bank after one poll: nothing happens until the level changes,
/// then every decoder sees the same event.
pub open spec fn multi4_spec_poll<P0: Protocol, P1: Protocol, P2: Protocol, P3: Protocol>(
    m: MultiReceiver4<P0, P1, P2, P3>,
    mark: bool,
) -> (MultiReceiver4<P0, P1, P2, P3>, (Option<<P0 as Protocol>::Cmd>, Option<<P1 as Protocol>::Cmd>, Option<<P2 as Protocol>::Cmd>, Option<<P3 as Protocol>::Cmd>)) {
    let st = periodic_spec_sample(m.adapter, mark);
    match st.1 {
        None => (
            MultiReceiver4 { d0: m.d0, d1: m.d1, d2: m.d2, d3: m.d3, adapter: st.0 },
            (None, None, None, None),
        ),
        Some(ev) => multi4_spec_event(
            MultiReceiver4 { d0: m.d0, d1: m.d1, d2: m.d2, d3: m.d3, adapter: st.0 },
            ev.0,
            ev.1,
        ),
    }
}

impl<P0: Protocol, P1: Protocol, P2: Protocol, P3: Protocol> MultiReceiver4<P0, P1, P2, P3> {
    pub open spec fn wf(self) -> bool {
        &&& self.d0.inv()
        &&& self.d1.inv()
        &&& self.d2.inv()
        &&& self.d3.inv()
    }

    /// Bind the decoders to a fresh poller sharing one time base.
    pub fn new(d0: P0, d1: P1, d2: P2, d3: P3) -> (r: MultiReceiver4<P0, P1, P2, P3>)
        requires
            d0.inv(),
            d1.inv(),
            d2.inv(),
            d3.inv(),
        ensures
            r.wf(),
            r.d0 == d0,
            r.d1 == d1,
            r.d2 == d2,
            r.d3 == d3,
            r.adapter == (PeriodicPoll { level: false, count: 0u32 }),
    {
        MultiReceiver4 { d0, d1, d2, d3, adapter: PeriodicPoll::new() }
    }

    /// Distribute one (level, duration) event to every decoder; exactly
    /// `multi4_spec_event`.
    pub fn event(&mut self, mark: bool, dur: u32) -> (r: (Option<<P0 as Protocol>::Cmd>, Option<<P1 as Protocol>::Cmd>, Option<<P2 as Protocol>::Cmd>, Option<<P3 as Protocol>::Cmd>))
        requires
            old(self).wf(),
        ensures
            final(self).wf(),
            (*final(self), r) == multi4_spec_event(*old(self), mark, dur),
    {
        let r0 = match self.d0.event(mark, dur) {
            DecodeResult::Done(c) => Some(c),
            _ => None,
        };
        let r1 = match self.d1.event(mark, dur) {
            DecodeResult::Done(c) => Some(c),
            _ => None,
        };
        let r2 = match self.d2.event(mark, dur) {
            DecodeResult::Done(c) => Some(c),
            _ => None,
        };
        let r3 = match self.d3.event(mark, dur) {
            DecodeResult::Done(c) => Some(c),
            _ => None,
        };
        (r0, r1, r2, r3)
    }

    /// Sample the pin level for this tick and, when the level changes,
    /// hand the ended period to every decoder; exactly
    /// `multi4_spec_poll`.
    pub fn poll(&mut self, mark: bool) -> (r: (Option<<P0 as Protocol>::Cmd>, Option<<P1 as Protocol>::Cmd>, Option<<P2 as Protocol>::Cmd>, Option<<P3 as Protocol>::Cmd>))
        requires
            old(self).wf(),
        ensures
            final(self).wf(),
            (*final(self), r) == multi4_spec_poll(*old(self), mark),
    {
        match self.adapter.sample(mark) {
            None => (None, None, None, None),
            Some((ended, dur)) => self.event(ended, dur),
        }
    }
}

/// A bank of five decoders of chosen protocols run in lockstep against
/// the same input stream, one result slot per decoder. An error in one
/// decoder only resets that decoder. (The fixed NEC/RC-5/RC-6 bank above
/// additionally carries the slot-isolation theorem.)
pub struct MultiReceiver5<P0: Protocol, P1: Protocol, P2: Protocol, P3: Protocol, P4: Protocol> {
    pub d0: P0,
    pub d1: P1,
    pub d2: P2,
    pub d3: P3,
    pub d4: P4,
    pub adapter: PeriodicPoll,
}

/// All decoders of the bank after one event, and the commands that
/// completed.
pub open spec fn multi5_spec_event<P0: Protocol, P1: Protocol, P2: Protocol, P3: Protocol, P4: Protocol>(
    m: MultiReceiver5<P0, P1, P2, P3, P4>,
    mark: bool,
    dur: u32,
) -> (MultiReceiver5<P0, P1, P2, P3, P4>, (Option<<P0 as Protocol>::Cmd>, Option<<P1 as Protocol>::Cmd>, Option<<P2 as Protocol>::Cmd>, Option<<P3 as Protocol>::Cmd>, Option<<P4 as Protocol>::Cmd>)) {
    let s0 = m.d0.next(mark, dur);
    let s1 = m.d1.next(mark, dur);
    let s2 = m.d2.next(mark, dur);
    let s3 = m.d3.next(mark, dur);
    let s4 = m.d4.next(mark, dur);
    (
        MultiReceiver5 { d0: s0.0, d1: s1.0, d2: s2.0, d3: s3.0, d4: s4.0, adapter: m.adapter },
        (completed(s0.1), completed(s1.1), completed(s2.1), completed(s3.1), completed(s4.1)),
    )
}

/// The bank after one poll: nothing happens until the level changes,
/// then every decoder sees the same event.
pub open spec fn multi5_spec_poll<P0: Protocol, P1: Protocol, P2: Protocol, P3: Protocol, P4: Protocol>(
    m: MultiReceiver5<P0, P1, P2, P3, P4>,
    mark: bool,
) -> (MultiReceiver5<P0, P1, P2, P3, P4>, (Option<<P0 as Protocol>::Cmd>, Option<<P1 as Protocol>::Cmd>, Option<<P2 as Protocol>::Cmd>, Option<<P3 as Protocol>::Cmd>, Option<<P4 as Protocol>::Cmd>)) {
    let st = periodic_spec_sample(m.adapter, mark);
    match st.1 {
        None => (
            MultiReceiver5 { d0: m.d0, d1: m.d1, d2: m.d2, d3: m.d3, d4: m.d4, adapter: st.0 },
            (None, None, None, None, None),
        ),
        Some(ev) => multi5_spec_event(
            MultiReceiver5 { d0: m.d0, d1: m.d1, d2: m.d2, d3: m.d3, d4: m.d4, adapter: st.0 },
            ev.0,
            ev.1,
        ),
    }
}

impl<P0: Protocol, P1: Protocol, P2: Protocol, P3: Protocol, P4: Protocol> MultiReceiver5<P0, P1, P2, P3, P4> {
    pub open spec fn wf(self) -> bool {
        &&& self.d0.inv()
        &&& self.d1.inv()
        &&& self.d2.inv()
        &&& self.d3.inv()
        &&& self.d4.inv()
    }

    /// Bind the decoders to a fresh poller sharing one time base.
    pub fn new(d0: P0, d1: P1, d2: P2, d3: P3, d4: P4) -> (r: MultiReceiver5<P0, P1, P2, P3, P4>)
        requires
            d0.inv(),
            d1.inv(),
            d2.inv(),
            d3.inv(),
            d4.inv(),
        ensures
            r.wf(),
            r.d0 == d0,
            r.d1 == d1,
            r.d2 == d2,
            r.d3 == d3,
            r.d4 == d4,
            r.adapter == (PeriodicPoll { level: false, count: 0u32 }),
    {
        MultiReceiver5 { d0, d1, d2, d3, d4, adapter: PeriodicPoll::new() }
    }

    /// Distribute one (level, duration) event to every decoder; exactly
    /// `multi5_spec_event`.
    pub fn event(&mut self, mark: bool, dur: u32) -> (r: (Option<<P0 as Protocol>::Cmd>, Option<<P1 as Protocol>::Cmd>, Option<<P2 as Protocol>::Cmd>, Option<<P3 as Protocol>::Cmd>, Option<<P4 as Protocol>::Cmd>))
        requires
            old(self).wf(),
        ensures
            final(self).wf(),
            (*final(self), r) == multi5_spec_event(*old(self), mark, dur),
    {
        let r0 = match self.d0.event(mark, dur) {
            DecodeResult::Done(c) => Some(c),
            _ => None,
        };
        let r1 = match self.d1.event(mark, dur) {
            DecodeResult::Done(c) => Some(c),
            _ => None,
        };
        let r2 = match self.d2.event(mark, dur) {
            DecodeResult::Done(c) => Some(c),
            _ => None,
        };
        let r3 = match self.d3.event(mark, dur) {
            DecodeResult::Done(c) => Some(c),
            _ => None,
        };
        let r4 = match self.d4.event(mark, dur) {
            DecodeResult::Done(c) => Some(c),
            _ => None,
        };
        (r0, r1, r2, r3, r4)
    }

    /// Sample the pin level for this tick and, when the level changes,
    /// hand the ended period to every decoder; exactly
    /// `multi5_spec_poll`.
    pub fn poll(&mut self, mark: bool) -> (r: (Option<<P0 as Protocol>::Cmd>, Option<<P1 as Protocol>::Cmd>, Option<<P2 as Protocol>::Cmd>, Option<<P3 as Protocol>::Cmd>, Option<<P4 as Protocol>::Cmd>))
        requires
            old(self).wf(),
        ensures
            final(self).wf(),
            (*final(self), r) == multi5_spec_poll(*old(self), mark),
    {
        match self.adapter.sample(mark) {
            None => (None, None, None, None, None),
            Some((ended, dur)) => self.event(ended, dur),
        }
    }
}

/// A bank of six decoders of chosen protocols run in lockstep against
/// the same input stream, one result slot per decoder. An error in one
/// decoder only resets that decoder. (The fixed NEC/RC-5/RC-6 bank above
/// additionally carries the slot-isolation theorem.)
pub struct MultiReceiver6<P0: Protocol, P1: Protocol, P2: Protocol, P3: Protocol, P4: Protocol, P5: Protocol> {
    pub d0: P0,
    pub d1: P1,
    pub d2: P2,
    pub d3: P3,
    pub d4: P4,
    pub d5: P5,
    pub adapter: PeriodicPoll,
}

/// All decoders of the bank after one event, and the commands that
/// completed.
pub open spec fn multi6_spec_event<P0: Protocol, P1: Protocol, P2: Protocol, P3: Protocol, P4: Protocol, P5: Protocol>(
    m: MultiReceiver6<P0, P1, P2, P3, P4, P5>,
    mark: bool,
    dur: u32,
) -> (MultiReceiver6<P0, P1, P2, P3, P4, P5>, (Option<<P0 as Protocol>::Cmd>, Option<<P1 as Protocol>::Cmd>, Option<<P2 as Protocol>::Cmd>, Option<<P3 as Protocol>::Cmd>, Option<<P4 as Protocol>::Cmd>, Option<<P5 as Protocol>::Cmd>)) {
    let s0 = m.d0.next(mark, dur);
    let s1 = m.d1.next(mark, dur);
    let s2 = m.d2.next(mark, dur);
    let s3 = m.d3.next(mark, dur);
    let s4 = m.d4.next(mark, dur);
    let s5 = m.d5.next(mark, dur);
    (
        MultiReceiver6 { d0: s0.0, d1: s1.0, d2: s2.0, d3: s3.0, d4: s4.0, d5: s5.0, adapter: m.adapter },
        (completed(s0.1), completed(s1.1), completed(s2.1), completed(s3.1), completed(s4.1), completed(s5.1)),
    )
}

/// The bank after one poll: nothing happens until the level changes,
/// then every decoder sees the same event.
pub open spec fn multi6_spec_poll<P0: Protocol, P1: Protocol, P2: Protocol, P3: Protocol, P4: Protocol, P5: Protocol>(
    m: MultiReceiver6<P0, P1, P2, P3, P4, P5>,
    mark: bool,
) -> (MultiReceiver6<P0, P1, P2, P3, P4, P5>, (Option<<P0 as Protocol>::Cmd>, Option<<P1 as Protocol>::Cmd>, Option<<P2 as Protocol>::Cmd>, Option<<P3 as Protocol>::Cmd>, Option<<P4 as Protocol>::Cmd>, Option<<P5 as Protocol>::Cmd>)) {
    let st = periodic_spec_sample(m.adapter, mark);
    match st.1 {
        None => (
            MultiReceiver6 { d0: m.d0, d1: m.d1, d2: m.d2, d3: m.d3, d4: m.d4, d5: m.d5, adapter: st.0 },
            (None, None, None, None, None, None),
        ),
        Some(ev) => multi6_spec_event(
            MultiReceiver6 { d0: m.d0, d1: m.d1, d2: m.d2, d3: m.d3, d4: m.d4, d5: m.d5, adapter: st.0 },
            ev.0,
            ev.1,
        ),
    }
}

impl<P0: Protocol, P1: Protocol, P2: Protocol, P3: Protocol, P4: Protocol, P5: Protocol> MultiReceiver6<P0, P1, P2, P3, P4, P5> {
    pub open spec fn wf(self) -> bool {
        &&& self.d0.inv()
        &&& self.d1.inv()
        &&& self.d2.inv()
        &&& self.d3.inv()
        &&& self.d4.inv()
        &&& self.d5.inv()
    }

    /// Bind the decoders to a fresh poller sharing one time base.
    pub fn new(d0: P0, d1: P1, d2: P2, d3: P3, d4: P4, d5: P5) -> (r: MultiReceiver6<P0, P1, P2, P3, P4, P5>)
        requires
            d0.inv(),
            d1.inv(),
            d2.inv(),
            d3.inv(),
            d4.inv(),
            d5.inv(),
        ensures
            r.wf(),
            r.d0 == d0,
            r.d1 == d1,
            r.d2 == d2,
            r.d3 == d3,
            r.d4 == d4,
            r.d5 == d5,
            r.adapter == (PeriodicPoll { level: false, count: 0u32 }),
    {
        MultiReceiver6 { d0, d1, d2, d3, d4, d5, adapter: PeriodicPoll::new() }
    }

    /// Distribute one (level, duration) event to every decoder; exactly
    /// `multi6_spec_event`.
    pub fn event(&mut self, mark: bool, dur: u32) -> (r: (Option<<P0 as Protocol>::Cmd>, Option<<P1 as Protocol>::Cmd>, Option<<P2 as Protocol>::Cmd>, Option<<P3 as Protocol>::Cmd>, Option<<P4 as Protocol>::Cmd>, Option<<P5 as Protocol>::Cmd>))
        requires
            old(self).wf(),
        ensures
            final(self).wf(),
            (*final(self), r) == multi6_spec_event(*old(self), mark, dur),
    {
        let r0 = match self.d0.event(mark, dur) {
            DecodeResult::Done(c) => Some(c),
            _ => None,
        };
        let r1 = match self.d1.event(mark, dur) {
            DecodeResult::Done(c) => Some(c),
            _ => None,
        };
        let r2 = match self.d2.event(mark, dur) {
            DecodeResult::Done(c) => Some(c),
            _ => None,
        };
        let r3 = match self.d3.event(mark, dur) {
            DecodeResult::Done(c) => Some(c),
            _ => None,
        };
        let r4 = match self.d4.event(mark, dur) {
            DecodeResult::Done(c) => Some(c),
            _ => None,
        };
        let r5 = match self.d5.event(mark, dur) {
            DecodeResult::Done(c) => Some(c),
            _ => None,
        };
        (r0, r1, r2, r3, r4, r5)
    }

    /// Sample the pin level for this tick and, when the level changes,
    /// hand the ended period to every decoder; exactly
    /// `multi6_spec_poll`.
    pub fn poll(&mut self, mark: bool) -> (r: (Option<<P0 as Protocol>::Cmd>, Option<<P1 as Protocol>::Cmd>, Option<<P2 as Protocol>::Cmd>, Option<<P3 as Protocol>::Cmd>, Option<<P4 as Protocol>::Cmd>, Option<<P5 as Protocol>::Cmd>))
        requires
            old(self).wf(),
        ensures
            final(self).wf(),
            (*final(self), r) == multi6_spec_poll(*old(self), mark),
    {
        match self.adapter.sample(mark) {
            None => (None, None, None, None, None, None),
            Some((ended, dur)) => self.event(ended, dur),
        }
    }
}

} // verus!
