//! A common face for the protocol decoders, so receivers can be generic
//! over the protocol.

use vstd::prelude::*;
use crate::cmd::{DecodeResult, NecCommand, Rc5Command, Rc6Command, SbpCommand};
use crate::nec::{nec_spec_event, NecDecoder};
use crate::rc5::{rc5_spec_event, Rc5Decoder};
use crate::rc6::{rc6_spec_event, Rc6Decoder};
use crate::sbp::{sbp_spec_event, SbpDecoder};

verus! {

/// One protocol decoder: a pure step function over (level, duration)
/// events, with an invariant that construction establishes and every
/// event preserves.
pub trait Protocol: Sized {
    type Cmd;

    /// The decoder's well-formedness invariant.
    spec fn inv(&self) -> bool;

    /// The decoder after one event, and what that event produces.
    spec fn next(&self, mark: bool, dur: u32) -> (Self, DecodeResult<Self::Cmd>);

    /// Feed the decoder the level that just ended (`mark` is carrier-on)
    /// and its duration in ticks; exactly `next`.
    fn event(&mut self, mark: bool, dur: u32) -> (r: DecodeResult<Self::Cmd>)
        requires
            old(self).inv(),
        ensures
            final(self).inv(),
            (*final(self), r) == old(self).next(mark, dur),
    ;
}

impl Protocol for NecDecoder {
    type Cmd = NecCommand;

    open spec fn inv(&self) -> bool {
        self.wf()
    }

    open spec fn next(&self, mark: bool, dur: u32) -> (NecDecoder, DecodeResult<NecCommand>) {
        nec_spec_event(*self, mark, dur)
    }

    fn event(&mut self, mark: bool, dur: u32) -> (r: DecodeResult<NecCommand>) {
        NecDecoder::event(self, mark, dur)
    }
}

impl Protocol for Rc5Decoder {
    type Cmd = Rc5Command;

    open spec fn inv(&self) -> bool {
        self.wf()
    }

    open spec fn next(&self, mark: bool, dur: u32) -> (Rc5Decoder, DecodeResult<Rc5Command>) {
        rc5_spec_event(*self, mark, dur)
    }

    fn event(&mut self, mark: bool, dur: u32) -> (r: DecodeResult<Rc5Command>) {
        Rc5Decoder::event(self, mark, dur)
    }
}

impl Protocol for Rc6Decoder {
    type Cmd = Rc6Command;

    open spec fn inv(&self) -> bool {
        self.wf()
    }

    open spec fn next(&self, mark: bool, dur: u32) -> (Rc6Decoder, DecodeResult<Rc6Command>) {
        rc6_spec_event(*self, mark, dur)
    }

    fn event(&mut self, mark: bool, dur: u32) -> (r: DecodeResult<Rc6Command>) {
        Rc6Decoder::event(self, mark, dur)
    }
}

impl Protocol for SbpDecoder {
    type Cmd = SbpCommand;

    open spec fn inv(&self) -> bool {
        self.wf()
    }

    open spec fn next(&self, mark: bool, dur: u32) -> (SbpDecoder, DecodeResult<SbpCommand>) {
        sbp_spec_event(*self, mark, dur)
    }

    fn event(&mut self, mark: bool, dur: u32) -> (r: DecodeResult<SbpCommand>) {
        SbpDecoder::event(self, mark, dur)
    }
}

} // verus!
