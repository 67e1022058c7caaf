use infrared::cmd::{DecodeResult, DecoderError, Rc5Command, Rc6Command, SbpCommand};
use infrared::rc5::{rc5_encode, Rc5Decoder};
use infrared::rc6::{rc6_encode, Rc6Decoder};
use infrared::sbp::{sbp_encode, SbpDecoder};
use infrared::stream::IntervalBuffer;

/// Feed an idle gap and then an encoded buffer as wire events; collect
/// every output.
fn feed_rc5(d: &mut Rc5Decoder, gap: u32, buf: &IntervalBuffer) -> Vec<DecodeResult<Rc5Command>> {
    let mut out = Vec::new();
    out.push(d.event(false, gap));
    for i in 0..buf.len() {
        out.push(d.event(i % 2 == 0, buf.get(i)));
    }
    out
}

#[test]
fn rc5_frame_decodes() {
    // start=1, start=1, toggle=0, addr=0x05, cmd=0x09.
    let cmd = Rc5Command { addr: 0x05, cmd: 0x09, toggle: false, start: true };
    let buf = rc5_encode(&cmd, 1_000_000);
    let mut d = Rc5Decoder::new(1_000_000);
    let out = feed_rc5(&mut d, 50_000, &buf);
    let done: Vec<_> = out
        .iter()
        .filter_map(|r| match r {
            DecodeResult::Done(c) => Some(*c),
            _ => None,
        })
        .collect();
    assert_eq!(done, vec![Rc5Command { addr: 5, cmd: 9, toggle: false, start: true }]);
    // No error leaked anywhere.
    assert!(!out.iter().any(|r| matches!(r, DecodeResult::Failed(_))));
}

#[test]
fn rc5_round_trip_many_commands() {
    for addr in [0u8, 5, 21, 31] {
        for cmdv in [0u8, 9, 42, 63] {
            for toggle in [false, true] {
                let cmd = Rc5Command { addr, cmd: cmdv, toggle, start: true };
                let buf = rc5_encode(&cmd, 1_000_000);
                let mut d = Rc5Decoder::new(1_000_000);
                let out = feed_rc5(&mut d, 10_000, &buf);
                let done: Vec<_> = out
                    .iter()
                    .filter_map(|r| match r {
                        DecodeResult::Done(c) => Some(*c),
                        _ => None,
                    })
                    .collect();
                assert_eq!(done, vec![cmd]);
            }
        }
    }
}

#[test]
fn rc5_half_bit_periods_on_wire() {
    // start=1, start=1: the second start bit's leading space merges with
    // nothing, so the wire starts (on 889, off 889, on ...).
    let cmd = Rc5Command { addr: 0, cmd: 0, toggle: false, start: true };
    let buf = rc5_encode(&cmd, 1_000_000);
    assert_eq!(buf.get(0), 889);
    // Every period is one or two half-bits.
    for i in 0..buf.len() {
        assert!(buf.get(i) == 889 || buf.get(i) == 1778);
    }
}

#[test]
fn rc5_timing_error_mid_frame() {
    let mut d = Rc5Decoder::new(1_000_000);
    assert_eq!(d.event(false, 30_000), DecodeResult::InProgress);
    assert_eq!(d.event(true, 889), DecodeResult::InProgress);
    // 3000 µs is neither one nor two half-bits.
    assert_eq!(d.event(false, 3000), DecodeResult::Failed(DecoderError::Timing));
}

#[test]
fn rc5_idle_recovery() {
    let mut d = Rc5Decoder::new(1_000_000);
    assert_eq!(d.event(false, 30_000), DecodeResult::InProgress);
    assert_eq!(d.event(true, 889), DecodeResult::InProgress);
    // An overlong duration abandons the frame...
    assert_eq!(d.event(false, 20_000), DecodeResult::Idle);
    // ...and a complete frame decodes afterwards.
    let cmd = Rc5Command { addr: 11, cmd: 22, toggle: true, start: true };
    let buf = rc5_encode(&cmd, 1_000_000);
    let out = feed_rc5(&mut d, 10_000, &buf);
    assert!(out.contains(&DecodeResult::Done(cmd)));
}

fn feed_rc6(d: &mut Rc6Decoder, gap: u32, buf: &IntervalBuffer) -> Vec<DecodeResult<Rc6Command>> {
    let mut out = Vec::new();
    out.push(d.event(false, gap));
    for i in 0..buf.len() {
        out.push(d.event(i % 2 == 0, buf.get(i)));
    }
    out
}

#[test]
fn rc6_mode0_frame_decodes() {
    // Leader (2666, 889), start=1, mode=0, toggle=0 doubled, addr=0x00,
    // cmd=0x0C.
    let cmd = Rc6Command { addr: 0x00, cmd: 0x0C, mode: 0, toggle: false };
    let buf = rc6_encode(&cmd, 1_000_000);
    assert_eq!(buf.get(0), 2666);
    assert_eq!(buf.get(1), 889);
    let mut d = Rc6Decoder::new(1_000_000);
    let out = feed_rc6(&mut d, 80_000, &buf);
    let done: Vec<_> = out
        .iter()
        .filter_map(|r| match r {
            DecodeResult::Done(c) => Some(*c),
            _ => None,
        })
        .collect();
    assert_eq!(done, vec![Rc6Command { addr: 0, cmd: 12, mode: 0, toggle: false }]);
    assert!(!out.iter().any(|r| matches!(r, DecodeResult::Failed(_))));
}

#[test]
fn rc6_round_trip_many_commands() {
    for addr in [0u8, 1, 0x55, 0xFF] {
        for cmdv in [0u8, 12, 0xA5, 0xFF] {
            for toggle in [false, true] {
                let cmd = Rc6Command { addr, cmd: cmdv, mode: 0, toggle };
                let buf = rc6_encode(&cmd, 1_000_000);
                let mut d = Rc6Decoder::new(1_000_000);
                let out = feed_rc6(&mut d, 10_000, &buf);
                let done: Vec<_> = out
                    .iter()
                    .filter_map(|r| match r {
                        DecodeResult::Done(c) => Some(*c),
                        _ => None,
                    })
                    .collect();
                assert_eq!(done, vec![cmd]);
            }
        }
    }
}

#[test]
fn rc6_bad_leader_is_timing_error() {
    let mut d = Rc6Decoder::new(1_000_000);
    assert_eq!(d.event(false, 50_000), DecodeResult::InProgress);
    // A 9 ms pulse is not an RC-6 leader.
    assert_eq!(d.event(true, 9000), DecodeResult::Failed(DecoderError::Timing));
}

fn feed_sbp(d: &mut SbpDecoder, buf: &IntervalBuffer) -> Vec<DecodeResult<SbpCommand>> {
    let mut out = Vec::new();
    for i in 0..buf.len() {
        out.push(d.event(i % 2 == 0, buf.get(i)));
    }
    out
}

#[test]
fn sbp_round_trip() {
    let buf = sbp_encode(0x1234, 0x56, 1_000_000);
    assert_eq!(buf.len(), 45);
    assert_eq!(buf.get(0), 4500);
    assert_eq!(buf.get(1), 4500);
    let mut d = SbpDecoder::new(1_000_000);
    let out = feed_sbp(&mut d, &buf);
    assert_eq!(out[44], DecodeResult::Done(SbpCommand { addr: 0x1234, cmd: 0x56 }));
    for r in &out[..44] {
        assert_eq!(*r, DecodeResult::InProgress);
    }
}

#[test]
fn sbp_rate_invariance() {
    let mut got = Vec::new();
    for rate in [20_000u32, 100_000u32] {
        let buf = sbp_encode(0x0155, 0x0A, rate);
        let mut d = SbpDecoder::new(rate);
        let done = feed_sbp(&mut d, &buf)
            .into_iter()
            .find_map(|r| match r {
                DecodeResult::Done(c) => Some(c),
                _ => None,
            });
        got.push(done);
    }
    assert_eq!(got[0], got[1]);
    assert_eq!(got[0], Some(SbpCommand { addr: 0x0155, cmd: 0x0A }));
}

#[test]
fn sbp_timing_error_resets() {
    let mut d = SbpDecoder::new(1_000_000);
    assert_eq!(d.event(true, 4500), DecodeResult::InProgress);
    // 2500 µs matches no expected space (SBP has no repeat frame).
    assert_eq!(d.event(false, 2500), DecodeResult::Failed(DecoderError::Timing));
    // A fresh frame decodes afterwards.
    let buf = sbp_encode(3, 4, 1_000_000);
    let out = feed_sbp(&mut d, &buf);
    assert_eq!(out[44], DecodeResult::Done(SbpCommand { addr: 3, cmd: 4 }));
}

#[test]
fn rc6_idle_recovery() {
    let mut d = Rc6Decoder::new(1_000_000);
    assert_eq!(d.event(false, 50_000), DecodeResult::InProgress);
    assert_eq!(d.event(true, 2666), DecodeResult::InProgress);
    // An overlong duration abandons the frame.
    assert_eq!(d.event(false, 20_000), DecodeResult::Idle);
    let cmd = Rc6Command { addr: 3, cmd: 5, mode: 0, toggle: true };
    let buf = rc6_encode(&cmd, 1_000_000);
    let out = feed_rc6(&mut d, 10_000, &buf);
    assert!(out.contains(&DecodeResult::Done(cmd)));
}

#[test]
fn sbp_idle_recovery() {
    let mut d = SbpDecoder::new(1_000_000);
    assert_eq!(d.event(true, 4500), DecodeResult::InProgress);
    assert_eq!(d.event(false, 4500), DecodeResult::InProgress);
    // Far beyond the longest valid symbol: the frame is abandoned.
    assert_eq!(d.event(true, 30_000), DecodeResult::Idle);
    let buf = sbp_encode(9, 9, 1_000_000);
    let out = feed_sbp(&mut d, &buf);
    assert_eq!(out[44], DecodeResult::Done(SbpCommand { addr: 9, cmd: 9 }));
}
