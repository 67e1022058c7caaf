//! Decoding and encoding of consumer infrared remote-control signals.
//!
//! The library turns raw (level, duration) edge events on a demodulated
//! receiver pin into typed protocol commands (NEC and its Samsung/Apple
//! variants, RC-5, RC-6 and SBP), and turns typed commands back into
//! carrier on/off interval sequences that a tick-driven sender can play
//! into an IR LED's carrier-enable line.
//!
//! All timing arithmetic is integer arithmetic: each decoder precomputes
//! its tolerance windows in ticks at construction, so the per-event hot
//! path is a handful of integer comparisons. Every decoder is a pure step
//! function of its state and the incoming event; the round-trip theorems
//! in each protocol module prove that decoding an encoded frame yields
//! the encoded command back, at every sampling rate from each protocol's
//! stated minimum up.

pub mod range;
pub mod cmd;
pub mod stream;
pub mod pulsedist;
pub mod nec;
pub mod sbp;
pub mod rc5;
pub mod rc6;
pub mod protocol;
pub mod adapter;
pub mod receiver;
pub mod sender;
pub mod remote;
