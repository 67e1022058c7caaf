use infrared::cmd::{DecodeResult, DecoderError, NecCommand};
use infrared::nec::{
    nec_encode, nec_encode_repeat, nec_payload_exec, nec_validate_exec, NecDecoder, NecVariant,
};

/// The wire events of one standard-timing NEC frame carrying `payload`,
/// LSB first: header, 32 burst/space pairs, trailing burst.
fn nec_frame_events(payload: u32) -> Vec<(bool, u32)> {
    let mut v: Vec<(bool, u32)> = Vec::new();
    v.push((true, 9000));
    v.push((false, 4500));
    for i in 0..32 {
        v.push((true, 562));
        if (payload >> i) & 1 == 1 {
            v.push((false, 1687));
        } else {
            v.push((false, 562));
        }
    }
    v.push((true, 562));
    v
}

fn feed(d: &mut NecDecoder, evts: &[(bool, u32)]) -> Vec<DecodeResult<NecCommand>> {
    let mut out = Vec::new();
    for &(mark, dur) in evts {
        out.push(d.event(mark, dur));
    }
    out
}

#[test]
fn nec_standard_frame_decodes() {
    // Payload bytes LSB-first: 0x04 0xFB 0x07 0xF8 (address, its
    // complement, command, its complement).
    let payload = 0x04u32 | (0xFB << 8) | (0x07 << 16) | (0xF8 << 24);
    let mut d = NecDecoder::new(1_000_000, NecVariant::Standard);
    let out = feed(&mut d, &nec_frame_events(payload));
    assert_eq!(out.len(), 67);
    for r in &out[..66] {
        assert_eq!(*r, DecodeResult::InProgress);
    }
    assert_eq!(out[66], DecodeResult::Done(NecCommand { addr: 4, cmd: 7, repeat: false }));
}

#[test]
fn nec_repeat_frame_reemits_last_command() {
    let payload = 0x04u32 | (0xFB << 8) | (0x07 << 16) | (0xF8 << 24);
    let mut d = NecDecoder::new(1_000_000, NecVariant::Standard);
    let out = feed(&mut d, &nec_frame_events(payload));
    assert_eq!(out[66], DecodeResult::Done(NecCommand { addr: 4, cmd: 7, repeat: false }));
    // A long gap, then the dedicated repeat frame.
    assert_eq!(d.event(false, 40_000), DecodeResult::Idle);
    assert_eq!(d.event(true, 9000), DecodeResult::InProgress);
    assert_eq!(d.event(false, 2250), DecodeResult::InProgress);
    assert_eq!(
        d.event(true, 562),
        DecodeResult::Done(NecCommand { addr: 4, cmd: 7, repeat: true })
    );
}

#[test]
fn nec_repeat_without_prior_frame_is_dropped() {
    let mut d = NecDecoder::new(1_000_000, NecVariant::Standard);
    assert_eq!(d.event(true, 9000), DecodeResult::InProgress);
    assert_eq!(d.event(false, 2250), DecodeResult::InProgress);
    assert_eq!(d.event(true, 562), DecodeResult::Idle);
}

#[test]
fn nec_complement_failure_is_data_error() {
    // Command byte 0x07 with a bad complement byte 0x00.
    let payload = 0x04u32 | (0xFB << 8) | (0x07 << 16);
    let mut d = NecDecoder::new(1_000_000, NecVariant::Standard);
    let out = feed(&mut d, &nec_frame_events(payload));
    assert_eq!(out[66], DecodeResult::Failed(DecoderError::Data));
    // After an idle gap the next valid frame decodes normally.
    assert_eq!(d.event(false, 40_000), DecodeResult::Idle);
    let good = 0x04u32 | (0xFB << 8) | (0x07 << 16) | (0xF8 << 24);
    let out2 = feed(&mut d, &nec_frame_events(good));
    assert_eq!(out2[66], DecodeResult::Done(NecCommand { addr: 4, cmd: 7, repeat: false }));
}

#[test]
fn nec_timing_error_resets_to_idle() {
    let mut d = NecDecoder::new(1_000_000, NecVariant::Standard);
    assert_eq!(d.event(true, 9000), DecodeResult::InProgress);
    // 3000 µs matches neither the header space nor the repeat space.
    assert_eq!(d.event(false, 3000), DecodeResult::Failed(DecoderError::Timing));
    // The decoder is idle again: a fresh frame decodes.
    let good = 0x04u32 | (0xFB << 8) | (0x07 << 16) | (0xF8 << 24);
    let out = feed(&mut d, &nec_frame_events(good));
    assert_eq!(out[66], DecodeResult::Done(NecCommand { addr: 4, cmd: 7, repeat: false }));
}

#[test]
fn nec_idle_recovery_mid_frame() {
    let mut d = NecDecoder::new(1_000_000, NecVariant::Standard);
    assert_eq!(d.event(true, 9000), DecodeResult::InProgress);
    assert_eq!(d.event(false, 4500), DecodeResult::InProgress);
    assert_eq!(d.event(true, 562), DecodeResult::InProgress);
    // Far beyond the longest valid symbol: the frame is abandoned.
    assert_eq!(d.event(false, 30_000), DecodeResult::Idle);
    let good = 0x04u32 | (0xFB << 8) | (0x07 << 16) | (0xF8 << 24);
    let out = feed(&mut d, &nec_frame_events(good));
    assert_eq!(out[66], DecodeResult::Done(NecCommand { addr: 4, cmd: 7, repeat: false }));
}

#[test]
fn nec_determinism_same_events_same_outputs() {
    let payload = nec_payload_exec(NecVariant::Standard, 0x5A, 0x33);
    let evts = nec_frame_events(payload);
    let mut d1 = NecDecoder::new(1_000_000, NecVariant::Standard);
    let mut d2 = NecDecoder::new(1_000_000, NecVariant::Standard);
    let out1 = feed(&mut d1, &evts);
    let out2 = feed(&mut d2, &evts);
    assert_eq!(out1, out2);
}

/// Feed an encoded buffer to a decoder as wire events and return the one
/// completed command, if any.
fn decode_buffer(d: &mut NecDecoder, buf: &infrared::stream::IntervalBuffer) -> Option<NecCommand> {
    let mut got = None;
    for i in 0..buf.len() {
        let mark = i % 2 == 0;
        if let DecodeResult::Done(c) = d.event(mark, buf.get(i)) {
            got = Some(c);
        }
    }
    got
}

#[test]
fn nec_round_trip_all_variants_exec() {
    for variant in [NecVariant::Standard, NecVariant::Samsung, NecVariant::Apple] {
        let buf = nec_encode(variant, 0x12, 0xC7, 1_000_000);
        let mut d = NecDecoder::new(1_000_000, variant);
        let got = decode_buffer(&mut d, &buf);
        assert_eq!(got, Some(NecCommand { addr: 0x12, cmd: 0xC7, repeat: false }));
    }
}

#[test]
fn nec_rate_invariance() {
    // The same physical signal, sampled at two sufficient rates, yields
    // the same command.
    let mut got = Vec::new();
    for rate in [20_000u32, 100_000u32] {
        let buf = nec_encode(NecVariant::Standard, 0x04, 0x07, rate);
        let mut d = NecDecoder::new(rate, NecVariant::Standard);
        got.push(decode_buffer(&mut d, &buf));
    }
    assert_eq!(got[0], got[1]);
    assert_eq!(got[0], Some(NecCommand { addr: 4, cmd: 7, repeat: false }));
}

#[test]
fn nec_encode_repeat_matches_repeat_timings() {
    let buf = nec_encode_repeat(NecVariant::Standard, 1_000_000);
    assert_eq!(buf.len(), 3);
    assert_eq!(buf.get(0), 9000);
    assert_eq!(buf.get(1), 2250);
    assert_eq!(buf.get(2), 562);
}

#[test]
fn nec_validate_exec_cases() {
    // Standard: both complements must check out.
    let good = 0x04u32 | (0xFB << 8) | (0x07 << 16) | (0xF8 << 24);
    assert_eq!(
        nec_validate_exec(NecVariant::Standard, good),
        Some(NecCommand { addr: 4, cmd: 7, repeat: false })
    );
    let bad_addr = 0x04u32 | (0x04 << 8) | (0x07 << 16) | (0xF8 << 24);
    assert_eq!(nec_validate_exec(NecVariant::Standard, bad_addr), None);
    // Samsung: no complement check at all.
    assert_eq!(
        nec_validate_exec(NecVariant::Samsung, bad_addr),
        Some(NecCommand { addr: 4, cmd: 7, repeat: false })
    );
    // Apple: the vendor field must match.
    let apple = 0x87EEu32 | (0x0A << 16) | (0x03 << 24);
    assert_eq!(
        nec_validate_exec(NecVariant::Apple, apple),
        Some(NecCommand { addr: 3, cmd: 10, repeat: false })
    );
    assert_eq!(nec_validate_exec(NecVariant::Apple, good), None);
}

#[test]
fn nec_samsung_header_timings() {
    let buf = nec_encode(NecVariant::Samsung, 7, 9, 1_000_000);
    assert_eq!(buf.get(0), 4500);
    assert_eq!(buf.get(1), 4500);
    let mut d = NecDecoder::new(1_000_000, NecVariant::Samsung);
    let got = decode_buffer(&mut d, &buf);
    assert_eq!(got, Some(NecCommand { addr: 7, cmd: 9, repeat: false }));
}
