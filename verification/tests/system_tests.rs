use infrared::adapter::PeriodicPoll;
use infrared::cmd::{NecCommand, Rc5Command, Rc6Command, SbpCommand};
use infrared::nec::{nec_encode, NecDecoder, NecVariant};
use infrared::range::{ticks, TickRange};
use infrared::rc5::{rc5_encode, Rc5Decoder};
use infrared::rc6::{rc6_encode, Rc6Decoder};
use infrared::sbp::{sbp_encode, SbpDecoder};
use infrared::receiver::{
    EventReceiver, MultiReceiver, MultiReceiver2, MultiReceiver6, PeriodicReceiver,
};
use infrared::remote::{Button, DeviceType, RemoteControl};
use infrared::sender::{MultiSender, Sender, SenderSlot};
use infrared::stream::IntervalBuffer;

/// Expand an interval buffer (preceded by an idle gap) into one pin
/// sample per tick at the buffer's own rate.
fn samples_of(gap: u32, buf: &IntervalBuffer) -> Vec<bool> {
    let mut v = Vec::new();
    for _ in 0..gap {
        v.push(false);
    }
    for i in 0..buf.len() {
        let mark = i % 2 == 0;
        for _ in 0..buf.get(i) {
            v.push(mark);
        }
    }
    // Trailing idle so the last period's edge is observed.
    for _ in 0..gap {
        v.push(false);
    }
    v
}

#[test]
fn periodic_receiver_decodes_sampled_wave() {
    // A 20 kHz poller fed the pin level tick by tick.
    let rate = 20_000;
    let buf = nec_encode(NecVariant::Standard, 0x04, 0x07, rate);
    let mut rx = PeriodicReceiver::new(NecDecoder::new(rate, NecVariant::Standard));
    let mut got = None;
    for mark in samples_of(500, &buf) {
        match rx.poll(mark) {
            Ok(Some(c)) => got = Some(c),
            Ok(None) => {},
            Err(_) => panic!("no error expected from a clean wave"),
        }
    }
    assert_eq!(got, Some(NecCommand { addr: 4, cmd: 7, repeat: false }));
}

#[test]
fn periodic_adapter_emits_on_level_change() {
    let mut a = PeriodicPoll::new();
    assert_eq!(a.sample(false), None);
    assert_eq!(a.sample(false), None);
    // Rising edge after two idle ticks (plus the initial state's zero).
    assert_eq!(a.sample(true), Some((false, 2)));
    assert_eq!(a.sample(true), None);
    assert_eq!(a.sample(false), Some((true, 2)));
}

#[test]
fn event_receiver_decodes_edges() {
    let rate = 1_000_000;
    let buf = nec_encode(NecVariant::Standard, 0x5A, 0xA5, rate);
    let mut rx = EventReceiver::new(NecDecoder::new(rate, NecVariant::Standard));
    let mut got = None;
    // The edge after interval i flips the level to the opposite of the
    // interval's own level.
    for i in 0..buf.len() {
        let new_level = !(i % 2 == 0);
        if let Ok(Some(c)) = rx.edge(buf.get(i), new_level) {
            got = Some(c);
        }
    }
    assert_eq!(got, Some(NecCommand { addr: 0x5A, cmd: 0xA5, repeat: false }));
}

#[test]
fn multi_receiver_only_rc5_slot_fires() {
    let rate = 1_000_000;
    let cmd = Rc5Command { addr: 5, cmd: 9, toggle: false, start: true };
    let buf = rc5_encode(&cmd, rate);
    let mut rx = MultiReceiver::new(rate, NecVariant::Standard);
    let mut nec_seen = Vec::new();
    let mut rc5_seen = Vec::new();
    let mut rc6_seen = Vec::new();
    let mut push = |r: (Option<NecCommand>, Option<Rc5Command>, Option<Rc6Command>),
                    nec_seen: &mut Vec<NecCommand>,
                    rc5_seen: &mut Vec<Rc5Command>,
                    rc6_seen: &mut Vec<Rc6Command>| {
        if let Some(c) = r.0 {
            nec_seen.push(c);
        }
        if let Some(c) = r.1 {
            rc5_seen.push(c);
        }
        if let Some(c) = r.2 {
            rc6_seen.push(c);
        }
    };
    let r = rx.event(false, 50_000);
    push(r, &mut nec_seen, &mut rc5_seen, &mut rc6_seen);
    for i in 0..buf.len() {
        let r = rx.event(i % 2 == 0, buf.get(i));
        push(r, &mut nec_seen, &mut rc5_seen, &mut rc6_seen);
    }
    assert_eq!(rc5_seen, vec![cmd]);
    assert!(nec_seen.is_empty());
    assert!(rc6_seen.is_empty());
}

#[test]
fn sender_tick_count_matches_encoded_duration() {
    // encode(NEC {addr: 0, cmd: 0}): header 9000 + 4500, 32 bursts of
    // 562, 16 zero-spaces of 562 and 16 one-spaces of 1687 (the
    // complement bytes are all ones), one trailing burst of 562.
    let buf = nec_encode(NecVariant::Standard, 0, 0, 1_000_000);
    let expected: u64 = 9000 + 4500 + 32 * 562 + 16 * 562 + 16 * 1687 + 562;
    assert_eq!(buf.total_ticks(), expected);
    let mut s = Sender::new();
    assert!(s.load(buf));
    let mut ticks_run: u64 = 0;
    let mut carrier_ticks: u64 = 0;
    while s.is_busy() {
        if s.tick() {
            carrier_ticks += 1;
        }
        ticks_run += 1;
        assert!(ticks_run <= expected);
    }
    assert_eq!(ticks_run, expected);
    // Carrier-on time: header pulse, 33 bursts.
    assert_eq!(carrier_ticks, 9000 + 33 * 562);
    // The carrier is released once the frame ends.
    assert!(!s.carrier_on());
    assert!(!s.tick());
}

#[test]
fn sender_rejects_load_while_busy() {
    let first = nec_encode(NecVariant::Standard, 1, 2, 1_000_000);
    let second = nec_encode(NecVariant::Standard, 3, 4, 1_000_000);
    let mut s = Sender::new();
    assert!(s.load(first));
    s.tick();
    assert!(!s.load(second));
    assert!(s.is_busy());
}

#[test]
fn multi_sender_one_frame_at_a_time() {
    let nec_buf = nec_encode(NecVariant::Standard, 1, 2, 1_000_000);
    let rc5_buf = rc5_encode(&Rc5Command { addr: 1, cmd: 2, toggle: false, start: true }, 1_000_000);
    let mut s = MultiSender::new();
    assert_eq!(s.active_slot(), None);
    assert!(s.load(SenderSlot::Nec, nec_buf));
    assert_eq!(s.active_slot(), Some(SenderSlot::Nec));
    assert!(!s.load(SenderSlot::Rc5, rc5_buf));
    assert_eq!(s.active_slot(), Some(SenderSlot::Nec));
    let mut guard: u64 = 0;
    loop {
        s.tick();
        guard += 1;
        if s.active_slot().is_none() {
            break;
        }
        assert!(guard < 200_000);
    }
}

#[test]
fn remote_control_maps_commands_to_buttons() {
    let table = vec![(2u8, Button::Power), (7u8, Button::VolumeUp), (11u8, Button::VolumeDown)];
    let remote = RemoteControl::new(String::from("living room tv"), DeviceType::Tv, 4, table);
    let hit = NecCommand { addr: 4, cmd: 7, repeat: false };
    assert_eq!(remote.button(&hit), Some(Button::VolumeUp));
    let unmapped = NecCommand { addr: 4, cmd: 99, repeat: false };
    assert_eq!(remote.button(&unmapped), Some(Button::Unmapped));
    let elsewhere = NecCommand { addr: 9, cmd: 7, repeat: false };
    assert_eq!(remote.button(&elsewhere), None);
}

#[test]
fn tick_range_window_values() {
    // 562 µs at 25% tolerance, one tick per microsecond.
    let w = TickRange::new(562, 25, 1_000_000);
    assert_eq!(w.lo, 421);
    assert_eq!(w.hi, 703);
    assert!(w.contains(421));
    assert!(w.contains(703));
    assert!(!w.contains(420));
    assert!(!w.contains(704));
    // The same symbol at a 20 kHz tick.
    let w20 = TickRange::new(562, 25, 20_000);
    assert_eq!(w20.lo, 8);
    assert_eq!(w20.hi, 15);
}

#[test]
fn tick_range_tolerance_monotonic_concrete() {
    // Every duration a 10% window accepts, a 25% window accepts too.
    let narrow = TickRange::new(1687, 10, 1_000_000);
    let wide = TickRange::new(1687, 25, 1_000_000);
    for d in narrow.lo..=narrow.hi {
        assert!(narrow.contains(d));
        assert!(wide.contains(d));
    }
}

#[test]
fn ticks_scales_to_rate() {
    assert_eq!(ticks(9000, 1_000_000), 9000);
    assert_eq!(ticks(9000, 20_000), 180);
    assert_eq!(ticks(562, 20_000), 11);
    assert_eq!(ticks(444, 2_253), 1);
}

#[test]
fn poll_remote_composes_decode_and_lookup() {
    let rate = 20_000;
    let table = vec![(7u8, Button::Power)];
    let remote = RemoteControl::new(String::from("bedroom tv"), DeviceType::Tv, 4, table);
    let buf = nec_encode(NecVariant::Standard, 4, 7, rate);
    let mut rx = PeriodicReceiver::new(NecDecoder::new(rate, NecVariant::Standard));
    let mut got = None;
    for mark in samples_of(500, &buf) {
        if let Ok(Some(b)) = rx.poll_remote(mark, &remote) {
            got = Some(b);
        }
    }
    assert_eq!(got, Some(Button::Power));
}

#[test]
fn sender_accepts_empty_buffer_and_stays_idle() {
    let mut s = Sender::new();
    assert!(s.load(IntervalBuffer::new()));
    assert!(!s.is_busy());
    assert!(!s.carrier_on());
    assert!(!s.tick());
}

#[test]
fn bank_of_two_with_sbp_decodes_sbp() {
    let rate = 1_000_000;
    let buf = sbp_encode(0x0042, 0x07, rate);
    let mut bank = MultiReceiver2::new(SbpDecoder::new(rate), NecDecoder::new(rate, NecVariant::Standard));
    let mut sbp_seen = Vec::new();
    let mut nec_seen = Vec::new();
    for i in 0..buf.len() {
        let (s, n) = bank.event(i % 2 == 0, buf.get(i));
        if let Some(c) = s {
            sbp_seen.push(c);
        }
        if let Some(c) = n {
            nec_seen.push(c);
        }
    }
    assert_eq!(sbp_seen, vec![SbpCommand { addr: 0x0042, cmd: 0x07 }]);
    assert!(nec_seen.is_empty());
}

#[test]
fn bank_of_two_nec_variants() {
    let rate = 1_000_000;
    // A Samsung-timed frame: only the Samsung-variant decoder completes.
    let buf = nec_encode(NecVariant::Samsung, 7, 9, rate);
    let mut bank = MultiReceiver2::new(
        NecDecoder::new(rate, NecVariant::Standard),
        NecDecoder::new(rate, NecVariant::Samsung),
    );
    let mut std_seen = Vec::new();
    let mut sam_seen = Vec::new();
    for i in 0..buf.len() {
        let (a, b) = bank.event(i % 2 == 0, buf.get(i));
        if let Some(c) = a {
            std_seen.push(c);
        }
        if let Some(c) = b {
            sam_seen.push(c);
        }
    }
    assert_eq!(sam_seen, vec![NecCommand { addr: 7, cmd: 9, repeat: false }]);
    assert!(std_seen.is_empty());
}

#[test]
fn bank_of_six_routes_rc6_to_its_slot() {
    let rate = 1_000_000;
    let cmd = Rc6Command { addr: 1, cmd: 2, mode: 0, toggle: true };
    let buf = rc6_encode(&cmd, rate);
    let mut bank = MultiReceiver6::new(
        NecDecoder::new(rate, NecVariant::Standard),
        NecDecoder::new(rate, NecVariant::Samsung),
        NecDecoder::new(rate, NecVariant::Apple),
        Rc5Decoder::new(rate),
        Rc6Decoder::new(rate),
        SbpDecoder::new(rate),
    );
    let mut rc6_seen = Vec::new();
    let mut others = 0;
    let r = bank.event(false, 50_000);
    assert!(r.0.is_none() && r.1.is_none() && r.2.is_none() && r.3.is_none() && r.4.is_none() && r.5.is_none());
    for i in 0..buf.len() {
        let r = bank.event(i % 2 == 0, buf.get(i));
        if r.0.is_some() || r.1.is_some() || r.2.is_some() || r.3.is_some() || r.5.is_some() {
            others += 1;
        }
        if let Some(c) = r.4 {
            rc6_seen.push(c);
        }
    }
    assert_eq!(rc6_seen, vec![cmd]);
    assert_eq!(others, 0);
}

#[test]
fn remote_control_maps_all_protocol_commands() {
    let table = vec![(9u8, Button::Play), (10u8, Button::Pause)];
    let remote = RemoteControl::new(String::from("media player"), DeviceType::Cd, 5, table);
    assert_eq!(
        remote.button_rc5(&Rc5Command { addr: 5, cmd: 9, toggle: false, start: true }),
        Some(Button::Play)
    );
    assert_eq!(
        remote.button_rc5(&Rc5Command { addr: 6, cmd: 9, toggle: false, start: true }),
        None
    );
    assert_eq!(
        remote.button_rc6(&Rc6Command { addr: 5, cmd: 10, mode: 0, toggle: false }),
        Some(Button::Pause)
    );
    assert_eq!(
        remote.button_rc6(&Rc6Command { addr: 5, cmd: 77, mode: 0, toggle: false }),
        Some(Button::Unmapped)
    );
    assert_eq!(remote.button_sbp(&SbpCommand { addr: 5, cmd: 9 }), Some(Button::Play));
    assert_eq!(remote.button_sbp(&SbpCommand { addr: 0x1005, cmd: 9 }), None);
}

#[test]
fn multi_sender_plays_full_frame_duration() {
    let buf = nec_encode(NecVariant::Standard, 0, 0, 1_000_000);
    let total = buf.total_ticks();
    let mut s = MultiSender::new();
    assert!(s.load(SenderSlot::Nec, buf));
    let mut ticks_run: u64 = 0;
    while s.active_slot().is_some() {
        assert_eq!(s.active_slot(), Some(SenderSlot::Nec));
        s.tick();
        ticks_run += 1;
        assert!(ticks_run <= total);
    }
    assert_eq!(ticks_run, total);
}
