//! Typed commands, decoder errors and the per-event decoder result.

use vstd::prelude::*;

verus! {

/// A decoded NEC-family frame: 8-bit address, 8-bit command and a repeat
/// flag that is set when the frame was a dedicated NEC repeat burst.
#[derive(Clone, Copy, Debug, PartialEq, Eq, Structural)]
pub struct NecCommand {
    pub addr: u8,
    pub cmd: u8,
    pub repeat: bool,
}

/// A decoded RC-5 frame: 5-bit address, 6-bit command, the toggle bit and
/// the second start bit exactly as received (the first start bit is fixed).
#[derive(Clone, Copy, Debug, PartialEq, Eq, Structural)]
pub struct Rc5Command {
    pub addr: u8,
    pub cmd: u8,
    pub toggle: bool,
    pub start: bool,
}

/// A decoded RC-6 frame: 8-bit address, 8-bit command, the 3-bit mode field
/// and the toggle bit (transmitted at doubled cell time).
#[derive(Clone, Copy, Debug, PartialEq, Eq, Structural)]
pub struct Rc6Command {
    pub addr: u8,
    pub cmd: u8,
    pub mode: u8,
    pub toggle: bool,
}

/// A decoded SBP frame: 13-bit address and 8-bit command.
#[derive(Clone, Copy, Debug, PartialEq, Eq, Structural)]
pub struct SbpCommand {
    pub addr: u16,
    pub cmd: u8,
}

/// Why a decoder rejected the frame in flight. Both errors are local to a
/// single frame: the decoder is back at idle for the next event.
#[derive(Clone, Copy, Debug, PartialEq, Eq, Structural)]
pub enum DecoderError {
    /// The duration did not match any symbol expected in the current state.
    Timing,
    /// The frame was received in full but failed structural validation.
    Data,
}

/// What one decoder event produced.
#[derive(Clone, Copy, Debug, PartialEq, Eq)]
pub enum DecodeResult<C> {
    /// The line is idle; nothing is in flight.
    Idle,
    /// A frame is in flight but not yet complete.
    InProgress,
    /// A frame completed and decoded to a command.
    Done(C),
    /// The frame in flight was rejected; the decoder has reset to idle.
    Failed(DecoderError),
}

} // verus!
