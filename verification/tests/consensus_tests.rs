//! Exact-value checks for the bit-consensus step and the transport's
//! deadline policy.

use sameold::consensus::consensus;
use sameold::transport::HOLD_OFF;
use sameold::Burst;
use sameold::Message;
use sameold::MessageDecodeErr;
use sameold::MessageResult;
use sameold::Transport;
use sameold::TransportState;

/// The message decoder the tests supply: a payload is a message when
/// it is nonempty and starts with the field separator `-`.
fn decode_msg(payload: Vec<u8>) -> MessageResult {
    if payload.is_empty() {
        Err(MessageDecodeErr::TooShort)
    } else if payload[0] != b'-' {
        Err(MessageDecodeErr::UnrecognizedPrefix)
    } else if payload.contains(&0u8) {
        Err(MessageDecodeErr::Malformed)
    } else {
        Ok(Message::new(payload))
    }
}

fn burst(bytes: &[u8], arrival: u64) -> Burst {
    Burst { bytes: bytes.to_vec(), arrival }
}

#[test]
fn consensus_single_burst_is_identity() {
    let h = vec![burst(&[1, 2, 3], 0)];
    assert_eq!(consensus(&h), vec![1, 2, 3]);
}

#[test]
fn consensus_three_bursts_majority_wins() {
    // Two bursts agree on 0x42 at position 1; the third differs by a
    // single bit (0x43). The majority value must win.
    let h = vec![
        burst(&[0x41, 0x42], 0),
        burst(&[0x41, 0x42], 1),
        burst(&[0x41, 0x43], 2),
    ];
    assert_eq!(consensus(&h), vec![0x41, 0x42]);
}

#[test]
fn consensus_majority_is_per_bit() {
    // Each burst is wrong in a different bit; every bit still has a
    // two-of-three majority for the true value 0b0110_1001.
    let h = vec![
        burst(&[0b0110_1000], 0), // bit 0 flipped
        burst(&[0b0110_1011], 1), // bit 1 flipped
        burst(&[0b0010_1001], 2), // bit 6 flipped
    ];
    assert_eq!(consensus(&h), vec![0b0110_1001]);
}

#[test]
fn consensus_length_is_longest_and_tail_from_sole_cover() {
    // Lengths 1, 2, 3: the result is as long as the longest burst.
    // Position 0 is voted by all three (per bit: 0xFF, 0x00, 0x01
    // gives 0x01); position 1 only by the last two, where a tie goes
    // to the earlier arrival (0x0F); position 2 only the longest
    // burst covers, so its byte 0x77 is taken as is.
    let h = vec![
        burst(&[0xFF], 0),
        burst(&[0x00, 0x0F], 1),
        burst(&[0x01, 0xF0, 0x77], 2),
    ];
    assert_eq!(consensus(&h), vec![0x01, 0x0F, 0x77]);
}

#[test]
fn consensus_two_bursts_tie_breaks_to_earliest() {
    // With two bursts every disagreeing bit is a tie; the earlier
    // arrival must win every one of them.
    let h = vec![burst(&[0xF0, 0xAA], 0), burst(&[0x0F, 0xAA], 1)];
    assert_eq!(consensus(&h), vec![0xF0, 0xAA]);
}

#[test]
fn consensus_identical_bursts_change_nothing() {
    let h = vec![
        burst(&[9, 8, 7], 0),
        burst(&[9, 8, 7], 1),
        burst(&[9, 8, 7], 2),
    ];
    assert_eq!(consensus(&h), vec![9, 8, 7]);
}

#[test]
fn transport_single_burst_reports_once_after_deadline() {
    let mut t = Transport::new();
    assert_eq!(t.state(), TransportState::Idle);
    t.accept_burst(b"-TEST".to_vec(), 100);
    assert_eq!(t.state(), TransportState::Assembling);
    // Before the deadline nothing happens.
    assert_eq!(t.tick(100 + HOLD_OFF - 1, decode_msg), TransportState::Assembling);
    // At the deadline the single burst decodes directly.
    let r = t.tick(100 + HOLD_OFF, decode_msg);
    assert_eq!(
        r,
        TransportState::Message(Ok(Message::new(b"-TEST".to_vec())))
    );
    // Reported exactly once: the cycle has reset to Idle.
    assert_eq!(t.state(), TransportState::Idle);
    assert_eq!(t.tick(u64::MAX, decode_msg), TransportState::Idle);
}

#[test]
fn transport_tick_with_no_bursts_is_noop() {
    let mut t = Transport::new();
    assert_eq!(t.tick(u64::MAX, decode_msg), TransportState::Idle);
    assert_eq!(t.state(), TransportState::Idle);
}

#[test]
fn transport_reports_decode_error() {
    let mut t = Transport::new();
    t.accept_burst(b"XBAD".to_vec(), 0);
    let r = t.tick(HOLD_OFF, decode_msg);
    assert_eq!(
        r,
        TransportState::Message(Err(MessageDecodeErr::UnrecognizedPrefix))
    );
    assert_eq!(t.state(), TransportState::Idle);
}

#[test]
fn transport_zero_length_burst_reports_too_short() {
    let mut t = Transport::new();
    t.accept_burst(Vec::new(), 0);
    let r = t.tick(HOLD_OFF, decode_msg);
    assert_eq!(r, TransportState::Message(Err(MessageDecodeErr::TooShort)));
}

#[test]
fn transport_ignores_bursts_beyond_maximum() {
    let mut t = Transport::new();
    t.accept_burst(b"-SAME".to_vec(), 0);
    t.accept_burst(b"-SAME".to_vec(), 1);
    t.accept_burst(b"-SAME".to_vec(), 2);
    // A fourth burst is an anomaly: ignored, not voted on.
    t.accept_burst(b"ZZZZZ".to_vec(), 3);
    let r = t.tick(3 + HOLD_OFF, decode_msg);
    assert_eq!(
        r,
        TransportState::Message(Ok(Message::new(b"-SAME".to_vec())))
    );
}

#[test]
fn transport_each_burst_restarts_deadline() {
    let mut t = Transport::new();
    t.accept_burst(b"-TEST".to_vec(), 0);
    t.accept_burst(b"-TEST".to_vec(), 500);
    // The first burst's deadline has passed, but the second burst
    // moved it: still assembling.
    assert_eq!(t.tick(HOLD_OFF + 100, decode_msg), TransportState::Assembling);
    let r = t.tick(500 + HOLD_OFF, decode_msg);
    assert!(matches!(r, TransportState::Message(Ok(_))));
}

#[test]
fn transport_carrier_loss_finalizes_at_next_check() {
    let mut t = Transport::new();
    t.accept_burst(b"-TEST".to_vec(), 0);
    t.carrier_lost();
    // Well before the hold-off would have elapsed.
    let r = t.tick(1, decode_msg);
    assert!(matches!(r, TransportState::Message(Ok(_))));
    assert_eq!(t.state(), TransportState::Idle);
}

#[test]
fn transport_carrier_loss_alone_keeps_idle() {
    let mut t = Transport::new();
    t.carrier_lost();
    assert_eq!(t.tick(u64::MAX, decode_msg), TransportState::Idle);
}

#[test]
fn transport_malformed_payload_reports_malformed() {
    let mut t = Transport::new();
    t.accept_burst(vec![b'-', 0u8, b'X'], 0);
    let r = t.tick(HOLD_OFF, decode_msg);
    assert_eq!(r, TransportState::Message(Err(MessageDecodeErr::Malformed)));
}
