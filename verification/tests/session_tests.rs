use btc_mempool::address::{IpBits, PeerAddress};
use btc_mempool::mempool_info::MempoolInfo;
use btc_mempool::message::{build_version_message, Message};
use btc_mempool::session::{
    initial_session, session_step, ErrorKind, HandshakePhase, SessionEvent, SessionOutcome,
    SessionState, StepResult,
};

fn peer() -> PeerAddress {
    PeerAddress { ip: IpBits::V4(0x7f000001), port: 8333 }
}

fn version_message() -> Message {
    build_version_message(peer(), 1_700_000_000)
}

/// Run a session over a fixed list of events; panics if the events run
/// out before the session finishes.
fn run_events(peer: PeerAddress, events: Vec<SessionEvent>) -> (SessionOutcome, Vec<Message>) {
    let mut state = initial_session(peer);
    let mut sent: Vec<Message> = Vec::new();
    for event in events {
        match session_step(state, event) {
            StepResult::Continue(next, mut send) => {
                state = next;
                sent.append(&mut send);
            }
            StepResult::Done(outcome) => return (outcome, sent),
        }
    }
    panic!("session did not finish");
}

#[test]
fn responsive_peer_reports_fee_and_count() {
    let (outcome, sent) = run_events(
        peer(),
        vec![
            SessionEvent::Received(version_message()),
            SessionEvent::Received(Message::Verack),
            SessionEvent::Received(Message::FeeFilter(1000)),
            SessionEvent::Received(Message::Inventory(7)),
            SessionEvent::DeadlineExceeded,
        ],
    );
    assert_eq!(
        outcome,
        SessionOutcome::Success(MempoolInfo {
            ip_address: peer(),
            fee_filter: Some(1000),
            mempool_count: Some(7),
        })
    );
    assert_eq!(sent, vec![Message::Verack, Message::MemPoolRequest]);
}

#[test]
fn inventory_accumulates_across_batches() {
    let (outcome, _) = run_events(
        peer(),
        vec![
            SessionEvent::Received(version_message()),
            SessionEvent::Received(Message::Verack),
            SessionEvent::Received(Message::Inventory(3)),
            SessionEvent::Received(Message::Inventory(4)),
            SessionEvent::DeadlineExceeded,
        ],
    );
    match outcome {
        SessionOutcome::Success(info) => assert_eq!(info.mempool_count, Some(7)),
        other => panic!("expected success, got {:?}", other),
    }
}

#[test]
fn fee_filter_overwrites_previous_value() {
    let (outcome, _) = run_events(
        peer(),
        vec![
            SessionEvent::Received(version_message()),
            SessionEvent::Received(Message::Verack),
            SessionEvent::Received(Message::FeeFilter(5)),
            SessionEvent::Received(Message::FeeFilter(9)),
            SessionEvent::DeadlineExceeded,
        ],
    );
    match outcome {
        SessionOutcome::Success(info) => {
            assert_eq!(info.fee_filter, Some(9));
            assert_eq!(info.mempool_count, None);
        }
        other => panic!("expected success, got {:?}", other),
    }
}

#[test]
fn silent_peer_times_out_without_data() {
    let (outcome, sent) = run_events(
        peer(),
        vec![
            SessionEvent::WouldBlock,
            SessionEvent::WouldBlock,
            SessionEvent::WouldBlock,
            SessionEvent::DeadlineExceeded,
        ],
    );
    assert_eq!(outcome, SessionOutcome::Failure(ErrorKind::Timeout));
    assert!(sent.is_empty());
}

#[test]
fn quiet_established_peer_reports_empty_success() {
    let (outcome, _) = run_events(
        peer(),
        vec![
            SessionEvent::Received(version_message()),
            SessionEvent::Received(Message::Verack),
            SessionEvent::WouldBlock,
            SessionEvent::WouldBlock,
            SessionEvent::DeadlineExceeded,
        ],
    );
    assert_eq!(
        outcome,
        SessionOutcome::Success(MempoolInfo {
            ip_address: peer(),
            fee_filter: None,
            mempool_count: None,
        })
    );
}

#[test]
fn disconnect_after_fee_filter_keeps_partial_data() {
    let (outcome, _) = run_events(
        peer(),
        vec![
            SessionEvent::Received(version_message()),
            SessionEvent::Received(Message::Verack),
            SessionEvent::Received(Message::FeeFilter(123)),
            SessionEvent::DecodeError,
        ],
    );
    assert_eq!(
        outcome,
        SessionOutcome::Success(MempoolInfo {
            ip_address: peer(),
            fee_filter: Some(123),
            mempool_count: None,
        })
    );
}

#[test]
fn decode_error_before_handshake_is_a_failure() {
    let (outcome, _) = run_events(peer(), vec![SessionEvent::DecodeError]);
    assert_eq!(outcome, SessionOutcome::Failure(ErrorKind::ProtocolDecodeError));
}

#[test]
fn version_is_answered_with_verack_then_mempool_request() {
    let state = initial_session(peer());
    match session_step(state, SessionEvent::Received(version_message())) {
        StepResult::Continue(next, send) => {
            assert_eq!(send, vec![Message::Verack, Message::MemPoolRequest]);
            assert_eq!(next.phase, HandshakePhase::AwaitingVerack);
        }
        other => panic!("expected continue, got {:?}", other),
    }
}

#[test]
fn ping_is_answered_with_pong_carrying_the_nonce() {
    let state = initial_session(peer());
    match session_step(state, SessionEvent::Received(Message::Ping(42))) {
        StepResult::Continue(next, send) => {
            assert_eq!(send, vec![Message::Pong(42)]);
            assert_eq!(next.phase, HandshakePhase::AwaitingVersion);
        }
        other => panic!("expected continue, got {:?}", other),
    }
}

#[test]
fn data_before_handshake_is_ignored() {
    let state = initial_session(peer());
    match session_step(state, SessionEvent::Received(Message::FeeFilter(5))) {
        StepResult::Continue(next, send) => {
            assert!(send.is_empty());
            assert_eq!(next.phase, HandshakePhase::AwaitingVersion);
        }
        other => panic!("expected continue, got {:?}", other),
    }
}

#[test]
fn get_headers_and_unknown_messages_are_ignored() {
    let mut state = initial_session(peer());
    for message in [Message::GetHeaders, Message::Unknown, Message::Pong(1), Message::MemPoolRequest] {
        match session_step(state, SessionEvent::Received(message)) {
            StepResult::Continue(next, send) => {
                assert!(send.is_empty());
                assert_eq!(next.phase, HandshakePhase::AwaitingVersion);
                state = next;
            }
            other => panic!("expected continue, got {:?}", other),
        }
    }
}

#[test]
fn would_block_keeps_established_data() {
    let established = SessionState {
        peer: peer(),
        phase: HandshakePhase::Established(MempoolInfo {
            ip_address: peer(),
            fee_filter: Some(2),
            mempool_count: Some(3),
        }),
    };
    match session_step(established, SessionEvent::WouldBlock) {
        StepResult::Continue(next, send) => {
            assert!(send.is_empty());
            assert_eq!(next, established);
        }
        other => panic!("expected continue, got {:?}", other),
    }
}
