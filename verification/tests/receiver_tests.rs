//! Framer transitions and end-to-end receiver scenarios.

use sameold::framer::INTER_BYTE_TIMEOUT;
use sameold::framer::MAX_PAYLOAD;
use sameold::transport::HOLD_OFF;
use sameold::FrameOut;
use sameold::Framer;
use sameold::FramerState;
use sameold::Message;
use sameold::MessageDecodeErr;
use sameold::MessageResult;
use sameold::Receiver;
use sameold::TransportState;

/// The message decoder the tests supply: a payload is a message when
/// it is nonempty and starts with the field separator `-`.
fn decode_msg(payload: Vec<u8>) -> MessageResult {
    if payload.is_empty() {
        Err(MessageDecodeErr::TooShort)
    } else if payload[0] != b'-' {
        Err(MessageDecodeErr::UnrecognizedPrefix)
    } else if payload.contains(&0u8) {
        Err(MessageDecodeErr::Malformed)
    } else {
        Ok(Message::new(payload))
    }
}

/// Feed a full burst (prefix, payload, end marker) byte by byte,
/// one time unit apart, returning the time after the last byte.
fn feed_burst(r: &mut Receiver, payload: &[u8], mut now: u64, events: &mut Vec<FrameOut>) -> u64 {
    for &byte in b"ZCZC".iter().chain(payload.iter()).chain(b"NNNN".iter()) {
        if let Some(ev) = r.push_byte(byte, now) {
            events.push(ev);
        }
        now += 1;
    }
    now
}

#[test]
fn is_active_iff_searching_or_reading() {
    assert!(!FrameOut::NoCarrier.is_active());
    assert!(FrameOut::Searching.is_active());
    assert!(FrameOut::Reading.is_active());
    assert!(!FrameOut::Ready(Ok(Message::new(b"-X".to_vec()))).is_active());
    assert!(!FrameOut::Ready(Err(MessageDecodeErr::Malformed)).is_active());
}

#[test]
fn frame_out_labels() {
    assert_eq!(FrameOut::NoCarrier.as_str(), "no carrier");
    assert_eq!(FrameOut::Searching.as_str(), "searching");
    assert_eq!(FrameOut::Reading.as_str(), "reading");
    assert_eq!(
        FrameOut::Ready(Err(MessageDecodeErr::Malformed)).as_str(),
        "message ready"
    );
}

#[test]
fn message_carries_its_text() {
    let m = Message::new(b"-CIV-EAN".to_vec());
    assert_eq!(m.as_bytes(), &b"-CIV-EAN".to_vec());
}

#[test]
fn framer_starts_inactive_and_wakes_on_carrier() {
    let mut f = Framer::new();
    assert_eq!(f.state(), FramerState::NoCarrier);
    assert!(!f.frame_out().is_active());
    assert_eq!(f.carrier(true, 0), Some(FrameOut::Searching));
    assert_eq!(f.state(), FramerState::Searching);
    assert!(f.frame_out().is_active());
    // A second rising edge is not a state change.
    assert_eq!(f.carrier(true, 1), None);
}

#[test]
fn framer_detects_prefix_after_noise() {
    let mut f = Framer::new();
    f.carrier(true, 0);
    let mut now = 1;
    for &byte in b"qqZC" {
        assert_eq!(f.input(byte, now), (None, None));
        now += 1;
    }
    // "qZCZ" so far; the next 'C' completes "ZCZC" in the window.
    for &byte in b"ZC" {
        let (ev, b) = f.input(byte, now);
        assert!(b.is_none());
        if byte == b'C' {
            assert_eq!(ev, Some(FrameOut::Reading));
        } else {
            assert_eq!(ev, None);
        }
        now += 1;
    }
    assert_eq!(f.state(), FramerState::Reading);
}

#[test]
fn framer_end_marker_forwards_payload_without_marker() {
    let mut f = Framer::new();
    f.carrier(true, 0);
    let mut now = 1;
    for &byte in b"ZCZC" {
        f.input(byte, now);
        now += 1;
    }
    let mut forwarded = None;
    for &byte in b"-ABC-NNNN" {
        let (_, b) = f.input(byte, now);
        if b.is_some() {
            forwarded = b;
        }
        now += 1;
    }
    assert_eq!(forwarded, Some(b"-ABC-".to_vec()));
    assert_eq!(f.state(), FramerState::Searching);
}

#[test]
fn framer_carrier_loss_discards_unforwarded_burst() {
    let mut f = Framer::new();
    f.carrier(true, 0);
    let mut now = 1;
    for &byte in b"ZCZC-PARTIAL" {
        let (_, b) = f.input(byte, now);
        assert!(b.is_none());
        now += 1;
    }
    assert_eq!(f.state(), FramerState::Reading);
    // Carrier loss: immediate NoCarrier, nothing forwarded.
    assert_eq!(f.carrier(false, now), Some(FrameOut::NoCarrier));
    assert_eq!(f.state(), FramerState::NoCarrier);
    assert!(!f.frame_out().is_active());
}

#[test]
fn framer_inter_byte_gap_ends_burst() {
    let mut f = Framer::new();
    f.carrier(true, 0);
    let mut now = 1;
    for &byte in b"ZCZC-AB" {
        f.input(byte, now);
        now += 1;
    }
    // The next byte arrives after too long a gap: the burst ends at
    // the previous byte, and this byte feeds the new prefix search.
    let (ev, b) = f.input(b'Z', now + INTER_BYTE_TIMEOUT + 1);
    assert_eq!(ev, None);
    assert_eq!(b, Some(b"-AB".to_vec()));
    assert_eq!(f.state(), FramerState::Searching);
}

#[test]
fn framer_truncates_burst_at_max_payload() {
    let mut f = Framer::new();
    f.carrier(true, 0);
    let mut now = 1;
    for &byte in b"ZCZC" {
        f.input(byte, now);
        now += 1;
    }
    let mut forwarded = None;
    for _ in 0..MAX_PAYLOAD {
        let (_, b) = f.input(b'A', now);
        if b.is_some() {
            forwarded = b;
        }
        now += 1;
    }
    let burst = forwarded.expect("the burst must end at the maximum length");
    assert_eq!(burst.len(), MAX_PAYLOAD);
    assert!(burst.iter().all(|&x| x == b'A'));
    assert_eq!(f.state(), FramerState::Searching);
}

#[test]
fn scenario_single_burst_then_carrier_loss() {
    // Carrier, one complete valid burst, carrier loss before any
    // second burst, time past the deadline: the events are Searching,
    // Reading, Ready(Ok(..)), NoCarrier, in that order.
    let mut r = Receiver::new();
    let mut events: Vec<FrameOut> = Vec::new();
    events.extend(r.set_carrier(true, 0, decode_msg));
    let now = feed_burst(&mut r, b"-WXR-RWT-000000+0015-0011122-KAAA-", 1, &mut events);
    events.extend(r.set_carrier(false, now, decode_msg));
    if let Some(ev) = r.tick(now + HOLD_OFF, decode_msg) {
        events.push(ev);
    }
    assert_eq!(
        events,
        vec![
            FrameOut::Searching,
            FrameOut::Reading,
            FrameOut::Ready(Ok(Message::new(b"-WXR-RWT-000000+0015-0011122-KAAA-".to_vec()))),
            FrameOut::NoCarrier,
        ]
    );
}

#[test]
fn scenario_three_identical_bursts() {
    // Three identical bursts in rapid succession, then time past the
    // deadline: exactly one Ready(Ok(..)), equal to decoding any one
    // burst alone.
    let mut r = Receiver::new();
    let mut events: Vec<FrameOut> = Vec::new();
    events.extend(r.set_carrier(true, 0, decode_msg));
    let mut now = 1;
    for _ in 0..3 {
        now = feed_burst(&mut r, b"-EAS-RMT-999000+0030-0011130-KBBB-", now, &mut events);
    }
    if let Some(ev) = r.tick(now + HOLD_OFF, decode_msg) {
        events.push(ev);
    }
    let ready: Vec<&FrameOut> = events
        .iter()
        .filter(|e| matches!(e, FrameOut::Ready(_)))
        .collect();
    assert_eq!(ready.len(), 1);
    assert_eq!(
        ready[0],
        &FrameOut::Ready(decode_msg(b"-EAS-RMT-999000+0030-0011130-KBBB-".to_vec()))
    );
}

#[test]
fn scenario_corrupted_burst_reports_error_and_recovers() {
    // One burst whose payload fails the message decoder: a single
    // Ready(Err(..)), after which the receiver is idle and searching,
    // ready for the next cycle.
    let mut r = Receiver::new();
    let mut events: Vec<FrameOut> = Vec::new();
    events.extend(r.set_carrier(true, 0, decode_msg));
    let now = feed_burst(&mut r, b"GARBLED", 1, &mut events);
    let ev = r.tick(now + HOLD_OFF, decode_msg);
    assert_eq!(
        ev,
        Some(FrameOut::Ready(Err(MessageDecodeErr::UnrecognizedPrefix)))
    );
    assert_eq!(r.transport_state(), TransportState::Idle);
    assert!(r.frame_out().is_active());
}

#[test]
fn receiver_carrier_loss_with_empty_history_emits_only_no_carrier() {
    let mut r = Receiver::new();
    r.set_carrier(true, 0, decode_msg);
    let evs = r.set_carrier(false, 5, decode_msg);
    assert_eq!(evs, vec![FrameOut::NoCarrier]);
    // Dropping an absent carrier reports nothing.
    let evs = r.set_carrier(false, 6, decode_msg);
    assert_eq!(evs, Vec::<FrameOut>::new());
}

#[test]
fn receiver_tick_before_deadline_returns_nothing() {
    let mut r = Receiver::new();
    let mut events: Vec<FrameOut> = Vec::new();
    events.extend(r.set_carrier(true, 0, decode_msg));
    let now = feed_burst(&mut r, b"-TST-", 1, &mut events);
    assert_eq!(r.transport_state(), TransportState::Assembling);
    assert_eq!(r.tick(now, decode_msg), None);
    assert_eq!(r.transport_state(), TransportState::Assembling);
}

#[test]
fn framer_reset_forces_no_carrier() {
    let mut f = Framer::new();
    f.carrier(true, 0);
    let mut now = 1;
    for &byte in b"ZCZC-IN" {
        f.input(byte, now);
        now += 1;
    }
    assert_eq!(f.state(), FramerState::Reading);
    f.reset();
    assert_eq!(f.state(), FramerState::NoCarrier);
    assert!(!f.frame_out().is_active());
}

#[test]
fn scenario_empty_burst_reports_too_short() {
    // A burst whose end marker follows the prefix at once has an
    // empty payload; it still participates and reaches the decoder.
    let mut r = Receiver::new();
    let mut events: Vec<FrameOut> = Vec::new();
    events.extend(r.set_carrier(true, 0, decode_msg));
    let mut now = 1;
    for &byte in b"ZCZCNNNN" {
        if let Some(ev) = r.push_byte(byte, now) {
            events.push(ev);
        }
        now += 1;
    }
    let ev = r.tick(now + HOLD_OFF, decode_msg);
    assert_eq!(ev, Some(FrameOut::Ready(Err(MessageDecodeErr::TooShort))));
    assert_eq!(r.transport_state(), TransportState::Idle);
}
