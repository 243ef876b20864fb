use vstd::prelude::*;
use crate::address::PeerAddress;
use crate::mempool_info::{accumulated_count, MempoolInfo};
use crate::message::Message;

verus! {

/// Why a session ended without data.
#[derive(Clone, Copy, PartialEq, Eq, Structural, Debug)]
pub enum ErrorKind {
    /// The connection could not be opened.
    ConnectionError,
    /// The time budget ran out before the handshake completed.
    Timeout,
    /// A message could not be decoded before the handshake completed.
    ProtocolDecodeError,
    /// A message arrived from which no state can proceed; defensive,
    /// unreachable with the typed messages this machine consumes.
    UnexpectedState,
}

/// The terminal result of one peer session.  `Success` is returned
/// exactly when the handshake reached `Established`; its record may
/// still have both fields unset, which is a valid empty observation.
#[derive(Clone, Copy, PartialEq, Eq, Debug)]
pub enum SessionOutcome {
    Success(MempoolInfo),
    Failure(ErrorKind),
}

/// Where the handshake stands.  Once established, the session carries
/// the data accumulated so far.
#[derive(Clone, Copy, PartialEq, Eq, Debug)]
pub enum HandshakePhase {
    /// Connected; the peer's version message is still outstanding.
    AwaitingVersion,
    /// The peer's version message arrived; its verack is outstanding.
    AwaitingVerack,
    /// Verack received; observations accumulate here.
    Established(MempoolInfo),
}

/// The whole state of one peer session between two events.
#[derive(Clone, Copy, PartialEq, Eq, Debug)]
pub struct SessionState {
    pub peer: PeerAddress,
    pub phase: HandshakePhase,
}

/// One thing the surrounding connection loop observed and hands to the
/// machine: a decoded message, a read that found nothing yet, a read
/// that failed to decode (including a closed connection), or the
/// session deadline having passed.
#[derive(Clone, PartialEq, Eq, Debug)]
pub enum SessionEvent {
    Received(Message),
    WouldBlock,
    DecodeError,
    DeadlineExceeded,
}

/// What the machine asks of the connection loop after an event: either
/// carry on in a new state after sending the listed messages, or close
/// the connection and report the outcome.
#[derive(Debug)]
pub enum StepResult {
    Continue(SessionState, Vec<Message>),
    Done(SessionOutcome),
}

/// The mathematical counterpart of `StepResult`, with the messages to
/// send as a sequence.  The transition function below is stated over
/// this model, and the laws at the end of the module quantify over it.
pub enum StepModel {
    Proceed { state: SessionState, send: Seq<Message> },
    Finish { outcome: SessionOutcome },
}

impl SessionState {
    /// The state a session is in right after the connection opened and
    /// our own version message went out.
    pub open spec fn initial_spec(peer: PeerAddress) -> SessionState {
        SessionState { peer, phase: HandshakePhase::AwaitingVersion }
    }

    /// Once established, the accumulated record belongs to this
    /// session's own peer.
    pub open spec fn wf(self) -> bool {
        match self.phase {
            HandshakePhase::Established(info) => info.ip_address == self.peer,
            _ => true,
        }
    }
}

/// The messages sent in reaction to one received message: a version
/// message is answered with our verack followed by the mempool request,
/// a ping with a pong carrying the same nonce, everything else with
/// nothing.
pub open spec fn replies_to(m: Message) -> Seq<Message> {
    match m {
        Message::Version(_) => seq![Message::Verack, Message::MemPoolRequest],
        Message::Ping(nonce) => seq![Message::Pong(nonce)],
        _ => Seq::<Message>::empty(),
    }
}

/// The handshake phase after one received message, for a session bound
/// to `peer`:
/// - a version message completes our half of the handshake (the peer's
///   verack is then the only thing outstanding);
/// - a verack establishes the session with an empty record;
/// - a fee filter overwrites the recorded fee once established;
/// - an inventory batch adds its item count to the recorded total once
///   established;
/// - everything else (including data messages before the handshake is
///   complete) leaves the phase unchanged.
pub open spec fn phase_after(phase: HandshakePhase, peer: PeerAddress, m: Message) -> HandshakePhase {
    match m {
        Message::Version(_) => if phase is AwaitingVersion {
            HandshakePhase::AwaitingVerack
        } else {
            phase
        },
        Message::Verack => HandshakePhase::Established(MempoolInfo::empty_for(peer)),
        Message::FeeFilter(fee) => match phase {
            HandshakePhase::Established(info) => HandshakePhase::Established(
                MempoolInfo {
                    ip_address: info.ip_address,
                    fee_filter: Some(fee),
                    mempool_count: info.mempool_count,
                },
            ),
            _ => phase,
        },
        Message::Inventory(n) => match phase {
            HandshakePhase::Established(info) => HandshakePhase::Established(
                MempoolInfo {
                    ip_address: info.ip_address,
                    fee_filter: info.fee_filter,
                    mempool_count: Some(accumulated_count(info.mempool_count, n)),
                },
            ),
            _ => phase,
        },
        _ => phase,
    }
}

/// The outcome when the time budget runs out: whatever was accumulated
/// if the handshake completed, a timeout failure otherwise.
pub open spec fn outcome_on_deadline(s: SessionState) -> SessionOutcome {
    match s.phase {
        HandshakePhase::Established(info) => SessionOutcome::Success(info),
        _ => SessionOutcome::Failure(ErrorKind::Timeout),
    }
}

/// The outcome on a failed decode: an established peer is known good,
/// so the failure is read as the end of its stream and the data kept;
/// before that it is a protocol failure.
pub open spec fn outcome_on_decode_error(s: SessionState) -> SessionOutcome {
    match s.phase {
        HandshakePhase::Established(info) => SessionOutcome::Success(info),
        _ => SessionOutcome::Failure(ErrorKind::ProtocolDecodeError),
    }
}

/// The complete transition relation of a session: what one event does
/// to the state, what is sent, and when the session ends.
pub open spec fn step_model(s: SessionState, e: SessionEvent) -> StepModel {
    match e {
        SessionEvent::DeadlineExceeded => StepModel::Finish { outcome: outcome_on_deadline(s) },
        SessionEvent::DecodeError => StepModel::Finish { outcome: outcome_on_decode_error(s) },
        SessionEvent::WouldBlock => StepModel::Proceed { state: s, send: Seq::<Message>::empty() },
        SessionEvent::Received(m) => StepModel::Proceed {
            state: SessionState { peer: s.peer, phase: phase_after(s.phase, s.peer, m) },
            send: replies_to(m),
        },
    }
}

/// The state a fresh session starts in.
pub fn initial_session(peer: PeerAddress) -> (s: SessionState)
    ensures
        s == SessionState::initial_spec(peer),
{
    SessionState { peer, phase: HandshakePhase::AwaitingVersion }
}

/// Feed one observed event to a session and learn what to do next.
/// The result is exactly what `step_model` prescribes.
pub fn session_step(state: SessionState, event: SessionEvent) -> (r: StepResult)
    ensures
        (match step_model(state, event) {
            StepModel::Proceed { state: s2, send } => r matches StepResult::Continue(rs, out)
                && rs == s2 && out@ == send,
            StepModel::Finish { outcome } => r matches StepResult::Done(o) && o == outcome,
        }),
{
    match event {
        SessionEvent::DeadlineExceeded => match state.phase {
            HandshakePhase::Established(info) => StepResult::Done(SessionOutcome::Success(info)),
            _ => StepResult::Done(SessionOutcome::Failure(ErrorKind::Timeout)),
        },
        SessionEvent::DecodeError => match state.phase {
            HandshakePhase::Established(info) => StepResult::Done(SessionOutcome::Success(info)),
            _ => StepResult::Done(SessionOutcome::Failure(ErrorKind::ProtocolDecodeError)),
        },
        SessionEvent::WouldBlock => StepResult::Continue(state, Vec::new()),
        SessionEvent::Received(m) => {
            let peer = state.peer;
            let mut send: Vec<Message> = Vec::new();
            let next_phase: HandshakePhase = match m {
                Message::Version(_) => {
                    send.push(Message::Verack);
                    send.push(Message::MemPoolRequest);
                    match state.phase {
                        HandshakePhase::AwaitingVersion => HandshakePhase::AwaitingVerack,
                        other => other,
                    }
                },
                Message::Ping(nonce) => {
                    send.push(Message::Pong(nonce));
                    state.phase
                },
                Message::Verack => HandshakePhase::Established(MempoolInfo::new(peer)),
                Message::FeeFilter(fee) => match state.phase {
                    HandshakePhase::Established(mut info) => {
                        info.set_fee_filter(fee);
                        HandshakePhase::Established(info)
                    },
                    other => other,
                },
                Message::Inventory(n) => match state.phase {
                    HandshakePhase::Established(mut info) => {
                        info.update_mempool_count(n);
                        HandshakePhase::Established(info)
                    },
                    other => other,
                },
                _ => state.phase,
            };
            proof {
                assert(send@ =~= replies_to(m));
            }
            StepResult::Continue(SessionState { peer, phase: next_phase }, send)
        },
    }
}

/// The session run over a whole sequence of events: events are consumed
/// in order, and once a step finishes the session, later events are not
/// processed.  An exhausted sequence leaves the session mid-flight.
pub open spec fn run_model(s: SessionState, events: Seq<SessionEvent>) -> StepModel
    decreases events.len(),
{
    if events.len() == 0 {
        StepModel::Proceed { state: s, send: Seq::<Message>::empty() }
    } else {
        match step_model(s, events.first()) {
            StepModel::Proceed { state: s2, .. } => run_model(s2, events.drop_first()),
            StepModel::Finish { outcome } => StepModel::Finish { outcome },
        }
    }
}

/// Unfolding `run_model` by its leading event.
pub proof fn lemma_run_model_unfold(s: SessionState, e: SessionEvent, rest: Seq<SessionEvent>)
    ensures
        run_model(s, seq![e] + rest) == (match step_model(s, e) {
            StepModel::Proceed { state: s2, .. } => run_model(s2, rest),
            StepModel::Finish { outcome } => StepModel::Finish { outcome },
        }),
{
    let events = seq![e] + rest;
    assert(events.first() == e);
    assert(events.drop_first() =~= rest);
}

/// Splitting a run: the session first consumes `front`, and if it is
/// still mid-flight afterwards, goes on with `back` from there.
pub proof fn lemma_run_model_append(s: SessionState, front: Seq<SessionEvent>, back: Seq<SessionEvent>)
    ensures
        run_model(s, front + back) == (match run_model(s, front) {
            StepModel::Proceed { state: mid, .. } => run_model(mid, back),
            StepModel::Finish { outcome } => StepModel::Finish { outcome },
        }),
    decreases front.len(),
{
    if front.len() == 0 {
        assert(front + back =~= back);
    } else {
        assert((front + back).first() == front.first());
        assert((front + back).drop_first() =~= front.drop_first() + back);
        match step_model(s, front.first()) {
            StepModel::Proceed { state: s2, .. } => {
                lemma_run_model_append(s2, front.drop_first(), back);
            },
            StepModel::Finish { .. } => {},
        }
    }
}

/// A step keeps the session well formed: an established record always
/// belongs to the session's own peer.
pub proof fn lemma_step_preserves_wf(s: SessionState, e: SessionEvent)
    requires
        s.wf(),
    ensures
        (match step_model(s, e) {
            StepModel::Proceed { state, .. } => state.wf(),
            StepModel::Finish { .. } => true,
        }),
{
}

/// A record is only ever surrendered as a success out of an established
/// session, and it is exactly the record that session had accumulated.
pub proof fn lemma_success_only_when_established(s: SessionState, e: SessionEvent)
    ensures
        step_model(s, e) matches StepModel::Finish {
            outcome: SessionOutcome::Success(info),
        } ==> s.phase == HandshakePhase::Established(info),
{
}

/// An established session never falls back behind the handshake, and a
/// received message never clears a filled field of its record: what
/// was observed stays observed.  A repeated verack is the one message
/// that starts the record afresh; every other message only adds.
pub proof fn lemma_observations_are_never_unset(s: SessionState, m: Message)
    ensures
        s.phase is Established ==> phase_after(s.phase, s.peer, m) is Established,
        !(m is Verack) ==> (match (s.phase, phase_after(s.phase, s.peer, m)) {
            (HandshakePhase::Established(before), HandshakePhase::Established(after)) => (
            before.fee_filter is Some ==> after.fee_filter is Some) && (
            before.mempool_count is Some ==> after.mempool_count is Some),
            _ => true,
        }),
{
}

/// Reads that find no data yet change nothing: any run made only of
/// would-block events leaves the session exactly where it stood.
pub proof fn lemma_would_block_is_inert(s: SessionState, waits: Seq<SessionEvent>)
    requires
        forall|i: int| 0 <= i < waits.len() ==> waits[i] == SessionEvent::WouldBlock,
    ensures
        run_model(s, waits) == (StepModel::Proceed { state: s, send: Seq::<Message>::empty() }),
    decreases waits.len(),
{
    if waits.len() > 0 {
        assert(waits.first() == waits[0]);
        assert forall|i: int| 0 <= i < waits.drop_first().len()
            implies waits.drop_first()[i] == SessionEvent::WouldBlock by {
            assert(waits.drop_first()[i] == waits[i + 1]);
        }
        lemma_would_block_is_inert(s, waits.drop_first());
    }
}

/// A peer that answers the handshake and then advertises a fee filter
/// and one inventory batch before the deadline yields a success
/// carrying exactly that fee and that item count.
pub proof fn lemma_responsive_peer_reports_data(
    peer: PeerAddress,
    vi: crate::message::VersionInfo,
    fee: u64,
    n: usize,
)
    ensures
        run_model(
            SessionState::initial_spec(peer),
            seq![
                SessionEvent::Received(Message::Version(vi)),
                SessionEvent::Received(Message::Verack),
                SessionEvent::Received(Message::FeeFilter(fee)),
                SessionEvent::Received(Message::Inventory(n)),
                SessionEvent::DeadlineExceeded,
            ],
        ) == (StepModel::Finish {
            outcome: SessionOutcome::Success(
                MempoolInfo { ip_address: peer, fee_filter: Some(fee), mempool_count: Some(n) },
            ),
        }),
{
    let e1 = SessionEvent::Received(Message::Version(vi));
    let e2 = SessionEvent::Received(Message::Verack);
    let e3 = SessionEvent::Received(Message::FeeFilter(fee));
    let e4 = SessionEvent::Received(Message::Inventory(n));
    let e5 = SessionEvent::DeadlineExceeded;
    let s0 = SessionState::initial_spec(peer);
    assert(seq![e1, e2, e3, e4, e5] =~= seq![e1] + seq![e2, e3, e4, e5]);
    lemma_run_model_unfold(s0, e1, seq![e2, e3, e4, e5]);
    let s1 = SessionState { peer, phase: HandshakePhase::AwaitingVerack };
    assert(seq![e2, e3, e4, e5] =~= seq![e2] + seq![e3, e4, e5]);
    lemma_run_model_unfold(s1, e2, seq![e3, e4, e5]);
    let s2 = SessionState { peer, phase: HandshakePhase::Established(MempoolInfo::empty_for(peer)) };
    assert(seq![e3, e4, e5] =~= seq![e3] + seq![e4, e5]);
    lemma_run_model_unfold(s2, e3, seq![e4, e5]);
    let s3 = SessionState {
        peer,
        phase: HandshakePhase::Established(
            MempoolInfo { ip_address: peer, fee_filter: Some(fee), mempool_count: None },
        ),
    };
    assert(seq![e4, e5] =~= seq![e4] + seq![e5]);
    lemma_run_model_unfold(s3, e4, seq![e5]);
    let s4 = SessionState {
        peer,
        phase: HandshakePhase::Established(
            MempoolInfo { ip_address: peer, fee_filter: Some(fee), mempool_count: Some(n) },
        ),
    };
    assert(seq![e5] =~= seq![e5] + Seq::<SessionEvent>::empty());
    lemma_run_model_unfold(s4, e5, Seq::<SessionEvent>::empty());
}

/// Inventory batches accumulate: two batches of `n1` and `n2` items
/// leave a recorded count of `n1 + n2`, not of `n2` alone.
pub proof fn lemma_inventory_accumulates(
    peer: PeerAddress,
    vi: crate::message::VersionInfo,
    n1: usize,
    n2: usize,
)
    requires
        n1 + n2 <= usize::MAX,
    ensures
        run_model(
            SessionState::initial_spec(peer),
            seq![
                SessionEvent::Received(Message::Version(vi)),
                SessionEvent::Received(Message::Verack),
                SessionEvent::Received(Message::Inventory(n1)),
                SessionEvent::Received(Message::Inventory(n2)),
                SessionEvent::DeadlineExceeded,
            ],
        ) == (StepModel::Finish {
            outcome: SessionOutcome::Success(
                MempoolInfo {
                    ip_address: peer,
                    fee_filter: None,
                    mempool_count: Some((n1 + n2) as usize),
                },
            ),
        }),
{
    let e1 = SessionEvent::Received(Message::Version(vi));
    let e2 = SessionEvent::Received(Message::Verack);
    let e3 = SessionEvent::Received(Message::Inventory(n1));
    let e4 = SessionEvent::Received(Message::Inventory(n2));
    let e5 = SessionEvent::DeadlineExceeded;
    let s0 = SessionState::initial_spec(peer);
    assert(seq![e1, e2, e3, e4, e5] =~= seq![e1] + seq![e2, e3, e4, e5]);
    lemma_run_model_unfold(s0, e1, seq![e2, e3, e4, e5]);
    let s1 = SessionState { peer, phase: HandshakePhase::AwaitingVerack };
    assert(seq![e2, e3, e4, e5] =~= seq![e2] + seq![e3, e4, e5]);
    lemma_run_model_unfold(s1, e2, seq![e3, e4, e5]);
    let s2 = SessionState { peer, phase: HandshakePhase::Established(MempoolInfo::empty_for(peer)) };
    assert(seq![e3, e4, e5] =~= seq![e3] + seq![e4, e5]);
    lemma_run_model_unfold(s2, e3, seq![e4, e5]);
    let s3 = SessionState {
        peer,
        phase: HandshakePhase::Established(
            MempoolInfo { ip_address: peer, fee_filter: None, mempool_count: Some(n1) },
        ),
    };
    assert(seq![e4, e5] =~= seq![e4] + seq![e5]);
    lemma_run_model_unfold(s3, e4, seq![e5]);
    let s4 = SessionState {
        peer,
        phase: HandshakePhase::Established(
            MempoolInfo {
                ip_address: peer,
                fee_filter: None,
                mempool_count: Some((n1 + n2) as usize),
            },
        ),
    };
    assert(seq![e5] =~= seq![e5] + Seq::<SessionEvent>::empty());
    lemma_run_model_unfold(s4, e5, Seq::<SessionEvent>::empty());
}

/// Fee filters overwrite: after announcements of `f1` and then `f2`,
/// the recorded fee is `f2` alone.
pub proof fn lemma_fee_filter_overwrites(
    peer: PeerAddress,
    vi: crate::message::VersionInfo,
    f1: u64,
    f2: u64,
)
    ensures
        run_model(
            SessionState::initial_spec(peer),
            seq![
                SessionEvent::Received(Message::Version(vi)),
                SessionEvent::Received(Message::Verack),
                SessionEvent::Received(Message::FeeFilter(f1)),
                SessionEvent::Received(Message::FeeFilter(f2)),
                SessionEvent::DeadlineExceeded,
            ],
        ) == (StepModel::Finish {
            outcome: SessionOutcome::Success(
                MempoolInfo { ip_address: peer, fee_filter: Some(f2), mempool_count: None },
            ),
        }),
{
    let e1 = SessionEvent::Received(Message::Version(vi));
    let e2 = SessionEvent::Received(Message::Verack);
    let e3 = SessionEvent::Received(Message::FeeFilter(f1));
    let e4 = SessionEvent::Received(Message::FeeFilter(f2));
    let e5 = SessionEvent::DeadlineExceeded;
    let s0 = SessionState::initial_spec(peer);
    assert(seq![e1, e2, e3, e4, e5] =~= seq![e1] + seq![e2, e3, e4, e5]);
    lemma_run_model_unfold(s0, e1, seq![e2, e3, e4, e5]);
    let s1 = SessionState { peer, phase: HandshakePhase::AwaitingVerack };
    assert(seq![e2, e3, e4, e5] =~= seq![e2] + seq![e3, e4, e5]);
    lemma_run_model_unfold(s1, e2, seq![e3, e4, e5]);
    let s2 = SessionState { peer, phase: HandshakePhase::Established(MempoolInfo::empty_for(peer)) };
    assert(seq![e3, e4, e5] =~= seq![e3] + seq![e4, e5]);
    lemma_run_model_unfold(s2, e3, seq![e4, e5]);
    let s3 = SessionState {
        peer,
        phase: HandshakePhase::Established(
            MempoolInfo { ip_address: peer, fee_filter: Some(f1), mempool_count: None },
        ),
    };
    assert(seq![e4, e5] =~= seq![e4] + seq![e5]);
    lemma_run_model_unfold(s3, e4, seq![e5]);
    let s4 = SessionState {
        peer,
        phase: HandshakePhase::Established(
            MempoolInfo { ip_address: peer, fee_filter: Some(f2), mempool_count: None },
        ),
    };
    assert(seq![e5] =~= seq![e5] + Seq::<SessionEvent>::empty());
    lemma_run_model_unfold(s4, e5, Seq::<SessionEvent>::empty());
}

/// A peer that never responds at all times out with no partial data,
/// however many empty polls preceded the deadline.
pub proof fn lemma_silent_peer_times_out(peer: PeerAddress, waits: Seq<SessionEvent>)
    requires
        forall|i: int| 0 <= i < waits.len() ==> waits[i] == SessionEvent::WouldBlock,
    ensures
        run_model(
            SessionState::initial_spec(peer),
            waits + seq![SessionEvent::DeadlineExceeded],
        ) == (StepModel::Finish { outcome: SessionOutcome::Failure(ErrorKind::Timeout) }),
{
    let s0 = SessionState::initial_spec(peer);
    lemma_would_block_is_inert(s0, waits);
    lemma_run_model_append(s0, waits, seq![SessionEvent::DeadlineExceeded]);
    lemma_run_model_unfold(s0, SessionEvent::DeadlineExceeded, Seq::<SessionEvent>::empty());
    assert(seq![SessionEvent::DeadlineExceeded] =~= seq![SessionEvent::DeadlineExceeded]
        + Seq::<SessionEvent>::empty());
}

/// A peer that completes the handshake and then goes quiet yields a
/// success with both fields still unset once the deadline passes.
pub proof fn lemma_quiet_established_peer_reports_empty(
    peer: PeerAddress,
    vi: crate::message::VersionInfo,
    waits: Seq<SessionEvent>,
)
    requires
        forall|i: int| 0 <= i < waits.len() ==> waits[i] == SessionEvent::WouldBlock,
    ensures
        run_model(
            SessionState::initial_spec(peer),
            seq![
                SessionEvent::Received(Message::Version(vi)),
                SessionEvent::Received(Message::Verack),
            ] + waits + seq![SessionEvent::DeadlineExceeded],
        ) == (StepModel::Finish {
            outcome: SessionOutcome::Success(MempoolInfo::empty_for(peer)),
        }),
{
    let e1 = SessionEvent::Received(Message::Version(vi));
    let e2 = SessionEvent::Received(Message::Verack);
    let s0 = SessionState::initial_spec(peer);
    let s1 = SessionState { peer, phase: HandshakePhase::AwaitingVerack };
    let s2 = SessionState { peer, phase: HandshakePhase::Established(MempoolInfo::empty_for(peer)) };
    let tail = waits + seq![SessionEvent::DeadlineExceeded];
    assert(seq![e1, e2] + waits + seq![SessionEvent::DeadlineExceeded] =~= seq![e1] + (seq![e2]
        + tail));
    lemma_run_model_unfold(s0, e1, seq![e2] + tail);
    assert(seq![e2] + tail =~= seq![e2] + tail);
    lemma_run_model_unfold(s1, e2, tail);
    lemma_silent_peer_like_run(s2, waits);
}

/// From an established session, empty polls followed by the deadline
/// surrender exactly the record accumulated so far.
proof fn lemma_silent_peer_like_run(s: SessionState, waits: Seq<SessionEvent>)
    requires
        forall|i: int| 0 <= i < waits.len() ==> waits[i] == SessionEvent::WouldBlock,
    ensures
        run_model(s, waits + seq![SessionEvent::DeadlineExceeded]) == (StepModel::Finish {
            outcome: outcome_on_deadline(s),
        }),
{
    lemma_would_block_is_inert(s, waits);
    lemma_run_model_append(s, waits, seq![SessionEvent::DeadlineExceeded]);
    lemma_run_model_unfold(s, SessionEvent::DeadlineExceeded, Seq::<SessionEvent>::empty());
    assert(seq![SessionEvent::DeadlineExceeded] =~= seq![SessionEvent::DeadlineExceeded]
        + Seq::<SessionEvent>::empty());
}

/// A peer that completes the handshake, announces one fee filter, and
/// then abruptly closes the connection still yields a success with that
/// fee recorded and the count unset: a failed read on an established
/// session ends it gracefully.
pub proof fn lemma_closed_after_fee_filter_keeps_data(
    peer: PeerAddress,
    vi: crate::message::VersionInfo,
    fee: u64,
)
    ensures
        run_model(
            SessionState::initial_spec(peer),
            seq![
                SessionEvent::Received(Message::Version(vi)),
                SessionEvent::Received(Message::Verack),
                SessionEvent::Received(Message::FeeFilter(fee)),
                SessionEvent::DecodeError,
            ],
        ) == (StepModel::Finish {
            outcome: SessionOutcome::Success(
                MempoolInfo { ip_address: peer, fee_filter: Some(fee), mempool_count: None },
            ),
        }),
{
    let e1 = SessionEvent::Received(Message::Version(vi));
    let e2 = SessionEvent::Received(Message::Verack);
    let e3 = SessionEvent::Received(Message::FeeFilter(fee));
    let e4 = SessionEvent::DecodeError;
    let s0 = SessionState::initial_spec(peer);
    assert(seq![e1, e2, e3, e4] =~= seq![e1] + seq![e2, e3, e4]);
    lemma_run_model_unfold(s0, e1, seq![e2, e3, e4]);
    let s1 = SessionState { peer, phase: HandshakePhase::AwaitingVerack };
    assert(seq![e2, e3, e4] =~= seq![e2] + seq![e3, e4]);
    lemma_run_model_unfold(s1, e2, seq![e3, e4]);
    let s2 = SessionState { peer, phase: HandshakePhase::Established(MempoolInfo::empty_for(peer)) };
    assert(seq![e3, e4] =~= seq![e3] + seq![e4]);
    lemma_run_model_unfold(s2, e3, seq![e4]);
    let s3 = SessionState {
        peer,
        phase: HandshakePhase::Established(
            MempoolInfo { ip_address: peer, fee_filter: Some(fee), mempool_count: None },
        ),
    };
    assert(seq![e4] =~= seq![e4] + Seq::<SessionEvent>::empty());
    lemma_run_model_unfold(s3, e4, Seq::<SessionEvent>::empty());
}

} // verus!
