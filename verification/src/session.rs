//! The state machine of one client connection.
//!
//! A session makes every decision of a connection and performs none of its
//! traffic. The program that owns the connection tells the session what
//! happened, as an [`Event`] with the current time, and carries out the
//! [`Action`]s that the session answers with, in their order. Time is
//! counted in whole units on a clock that the owner supplies.

use crate::dispatch::{AnalysisError, AnalysisResult};
use vstd::prelude::*;

verus! {

/// The time between two liveness ticks.
pub const PROBE_INTERVAL: u64 = 5;

/// How long a session may hear nothing from its peer. A tick that finds a
/// longer silence closes the session.
pub const LIVENESS_TIMEOUT: u64 = 10;

/// Where a session stands in its life.
#[derive(Clone, Copy, Debug, PartialEq, Eq, Structural)]
pub enum SessionState {
    /// The handshake of the transport has not completed.
    Connecting,
    /// The handshake has completed and the liveness ticks are running.
    Active,
    /// A close has begun, by the peer or by the session itself.
    Closing,
    /// The connection is gone. Nothing changes a closed session.
    Closed,
}

/// Why a session began to close.
#[derive(Clone, Copy, Debug, PartialEq, Eq, Structural)]
pub enum CloseCause {
    /// The peer was silent for longer than [`LIVENESS_TIMEOUT`].
    HeartbeatTimeout,
    /// The peer asked for the close.
    PeerClosed,
    /// The peer sent something that is no frame of the protocol.
    ProtocolViolation,
}

/// The words for a heartbeat timeout.
pub const REASON_HEARTBEAT_TIMEOUT: &'static str = "heartbeat timeout";

/// The words for a close that the peer asked for.
pub const REASON_PEER_CLOSED: &'static str = "closed by peer";

/// The words for a protocol violation.
pub const REASON_PROTOCOL_VIOLATION: &'static str = "protocol violation";

impl CloseCause {
    /// The cause in words.
    pub open spec fn words(self) -> Seq<char> {
        match self {
            CloseCause::HeartbeatTimeout => REASON_HEARTBEAT_TIMEOUT@,
            CloseCause::PeerClosed => REASON_PEER_CLOSED@,
            CloseCause::ProtocolViolation => REASON_PROTOCOL_VIOLATION@,
        }
    }

    /// The cause in words, for the log.
    pub fn reason(self) -> (text: String)
        ensures
            text@ == self.words(),
    {
        match self {
            CloseCause::HeartbeatTimeout => REASON_HEARTBEAT_TIMEOUT.to_owned(),
            CloseCause::PeerClosed => REASON_PEER_CLOSED.to_owned(),
            CloseCause::ProtocolViolation => REASON_PROTOCOL_VIOLATION.to_owned(),
        }
    }
}

/// The reason that a peer gives with a close frame.
#[derive(Clone, Debug, PartialEq, Eq)]
pub struct CloseReason {
    pub code: u16,
    pub description: Option<String>,
}

/// One inbound message.
#[derive(Clone, Debug, PartialEq, Eq)]
pub enum Frame {
    /// A liveness probe with its payload.
    Probe(Vec<u8>),
    /// The acknowledgment of a liveness probe.
    ProbeAck(Vec<u8>),
    /// A data frame of text.
    Text(String),
    /// A data frame of bytes.
    Binary(Vec<u8>),
    /// The request to close, with the reason if one was given.
    Close(Option<CloseReason>),
    /// Anything that is no well-formed frame of the protocol.
    Malformed,
}

/// What a session is told.
#[derive(Debug, PartialEq, Eq)]
pub enum Event {
    /// The handshake of the transport has completed.
    Connected,
    /// The liveness timer has fired.
    Tick,
    /// The peer has sent a frame.
    Frame(Frame),
    /// An analysis that the session dispatched has come to its outcome.
    AnalysisFinished(Result<AnalysisResult, AnalysisError>),
    /// The transport has shut down.
    Terminated,
}

/// The immediate answer to a data frame.
#[derive(Clone, Copy, Debug, PartialEq, Eq, Structural)]
pub enum Status {
    /// Answers a text frame, as a text frame.
    Processing,
    /// Answers a binary frame, as a binary frame.
    Analyzing,
}

/// The wire text of the answer to a text frame.
pub const STATUS_PROCESSING: &'static str = "{\"status\": \"processing\"}";

/// The wire text of the answer to a binary frame.
pub const STATUS_ANALYZING: &'static str = "{\"status\": \"analyzing\"}";

impl Status {
    /// The text that is sent for the status.
    pub open spec fn wire_text(self) -> Seq<char> {
        match self {
            Status::Processing => STATUS_PROCESSING@,
            Status::Analyzing => STATUS_ANALYZING@,
        }
    }

    /// The text that is sent for the status.
    pub fn text(self) -> (text: String)
        ensures
            text@ == self.wire_text(),
    {
        match self {
            Status::Processing => STATUS_PROCESSING.to_owned(),
            Status::Analyzing => STATUS_ANALYZING.to_owned(),
        }
    }
}

/// The content of a data frame.
#[derive(Clone, Debug, PartialEq, Eq)]
pub enum Payload {
    Text(String),
    Binary(Vec<u8>),
}

/// What a session asks its owner to do.
#[derive(Clone, Debug, PartialEq, Eq)]
pub enum Action {
    /// Start the liveness timer, with a tick at every `interval`.
    StartProbes { interval: u64 },
    /// Send a liveness probe with an empty payload.
    SendProbe,
    /// Acknowledge a liveness probe, with the payload of the probe.
    SendProbeAck(Vec<u8>),
    /// Send the immediate answer to a data frame.
    SendStatus(Status),
    /// Hand the payload of a data frame to the analysis dispatcher.
    Dispatch(Payload),
    /// Send the result of an analysis.
    SendResult(AnalysisResult),
    /// Tell the peer that an analysis failed.
    SendFailure(AnalysisError),
    /// Acknowledge the peer's close, with the reason that it gave.
    SendClose(Option<CloseReason>),
    /// Stop the liveness timer and shut the transport down.
    Stop,
}

/// What a session knows.
pub struct SessionModel {
    /// The identifier of the client, fixed at the start.
    pub client_id: Seq<char>,
    /// When the peer was last heard from.
    pub last_liveness: u64,
    pub state: SessionState,
    /// Why the session began to close, once it has.
    pub cause: Option<CloseCause>,
}

/// Whether the peer has been silent for longer than the timeout.
pub open spec fn expired(m: SessionModel, now: u64) -> bool {
    now - m.last_liveness > LIVENESS_TIMEOUT
}

/// The session after the peer was heard from at the time `now`.
pub open spec fn touched(m: SessionModel, now: u64) -> SessionModel {
    SessionModel { last_liveness: now, ..m }
}

/// The session after a close began.
pub open spec fn closing(m: SessionModel, cause: CloseCause) -> SessionModel {
    SessionModel { state: SessionState::Closing, cause: Some(cause), ..m }
}

/// The session in another state.
pub open spec fn moved(m: SessionModel, state: SessionState) -> SessionModel {
    SessionModel { state, ..m }
}

/// What an active session makes of a frame.
pub open spec fn on_frame(m: SessionModel, frame: Frame, now: u64) -> (SessionModel, Seq<Action>) {
    match frame {
        Frame::Probe(payload) => (touched(m, now), seq![Action::SendProbeAck(payload)]),
        Frame::ProbeAck(_) => (touched(m, now), seq![]),
        Frame::Text(text) => (
            touched(m, now),
            seq![Action::SendStatus(Status::Processing), Action::Dispatch(Payload::Text(text))],
        ),
        Frame::Binary(bytes) => (
            touched(m, now),
            seq![Action::SendStatus(Status::Analyzing), Action::Dispatch(Payload::Binary(bytes))],
        ),
        Frame::Close(reason) => (
            closing(m, CloseCause::PeerClosed),
            seq![Action::SendClose(reason), Action::Stop],
        ),
        Frame::Malformed => (closing(m, CloseCause::ProtocolViolation), seq![Action::Stop]),
    }
}

/// The transition of a session: its next state and the actions it asks for,
/// in their order.
///
/// Before the handshake and during a close, well-formed frames, ticks and
/// analysis outcomes are ignored. A malformed frame before the handshake
/// begins a close. A closed session ignores everything.
pub open spec fn step(m: SessionModel, event: Event, now: u64) -> (SessionModel, Seq<Action>) {
    match m.state {
        SessionState::Connecting => match event {
            Event::Connected => (
                moved(m, SessionState::Active),
                seq![Action::StartProbes { interval: PROBE_INTERVAL }],
            ),
            Event::Frame(Frame::Malformed) => (
                closing(m, CloseCause::ProtocolViolation),
                seq![Action::Stop],
            ),
            Event::Terminated => (moved(m, SessionState::Closed), seq![]),
            _ => (m, seq![]),
        },
        SessionState::Active => match event {
            Event::Connected => (m, seq![]),
            Event::Tick => if expired(m, now) {
                (closing(m, CloseCause::HeartbeatTimeout), seq![Action::Stop])
            } else {
                (m, seq![Action::SendProbe])
            },
            Event::Frame(frame) => on_frame(m, frame, now),
            Event::AnalysisFinished(Ok(result)) => (m, seq![Action::SendResult(result)]),
            Event::AnalysisFinished(Err(error)) => (m, seq![Action::SendFailure(error)]),
            Event::Terminated => (moved(m, SessionState::Closed), seq![]),
        },
        SessionState::Closing => match event {
            Event::Terminated => (moved(m, SessionState::Closed), seq![]),
            _ => (m, seq![]),
        },
        SessionState::Closed => (m, seq![]),
    }
}

/// One client connection.
pub struct Session {
    client_id: String,
    last_liveness: u64,
    state: SessionState,
    cause: Option<CloseCause>,
}

impl View for Session {
    type V = SessionModel;

    closed spec fn view(&self) -> SessionModel {
        SessionModel {
            client_id: self.client_id@,
            last_liveness: self.last_liveness,
            state: self.state,
            cause: self.cause,
        }
    }
}

/// Draws a client identifier from `uuid::Uuid::new_v4` and writes it out with
/// the `Display` of `uuid::Uuid`.
///
/// The identifier is random, so nothing is said of which one comes back. Its
/// form is the same every time: thirty-six characters, of which the ninth,
/// fourteenth, nineteenth and twenty-fourth are hyphens, and the fifteenth is
/// the version digit `4`. The call fails only where the operating system has
/// no random numbers to give.
#[verifier::external_body]
fn fresh_client_id() -> (id: String)
    ensures
        is_client_id_form(id@),
{
    uuid::Uuid::new_v4().to_string()
}

/// The form of a generated client identifier.
pub open spec fn is_client_id_form(id: Seq<char>) -> bool {
    &&& id.len() == 36
    &&& id[8] == '-'
    &&& id[13] == '-'
    &&& id[18] == '-'
    &&& id[23] == '-'
    &&& id[14] == '4'
}

impl Session {
    /// A session for the client `client_id`, before the handshake. The peer
    /// counts as heard from at the time `now`.
    pub fn new(client_id: String, now: u64) -> (s: Session)
        ensures
            s@ == (SessionModel {
                client_id: client_id@,
                last_liveness: now,
                state: SessionState::Connecting,
                cause: None,
            }),
    {
        Session { client_id, last_liveness: now, state: SessionState::Connecting, cause: None }
    }

    /// A session for a new client, under a freshly drawn identifier.
    pub fn open(now: u64) -> (s: Session)
        ensures
            is_client_id_form(s@.client_id),
            s@.last_liveness == now,
            s@.state == SessionState::Connecting,
            s@.cause is None,
    {
        Session::new(fresh_client_id(), now)
    }

    /// The identifier of the client.
    pub fn client_id(&self) -> (id: &String)
        ensures
            id@ == self@.client_id,
    {
        &self.client_id
    }

    /// When the peer was last heard from.
    pub fn last_liveness(&self) -> (t: u64)
        ensures
            t == self@.last_liveness,
    {
        self.last_liveness
    }

    /// Where the session stands.
    pub fn state(&self) -> (state: SessionState)
        ensures
            state == self@.state,
    {
        self.state
    }

    /// Why the session began to close, once it has.
    pub fn close_cause(&self) -> (cause: Option<CloseCause>)
        ensures
            cause == self@.cause,
    {
        self.cause
    }

    /// Whether the session is active.
    pub fn is_active(&self) -> (r: bool)
        ensures
            r == (self@.state == SessionState::Active),
    {
        match self.state {
            SessionState::Active => true,
            _ => false,
        }
    }

    /// Whether the peer has been silent for longer than the timeout.
    pub fn is_expired(&self, now: u64) -> (r: bool)
        ensures
            r == expired(self@, now),
    {
        now > self.last_liveness && now - self.last_liveness > LIVENESS_TIMEOUT
    }

    /// Takes one event at the time `now`: moves the session to its next state
    /// and returns the actions to carry out, in their order.
    pub fn handle(&mut self, event: Event, now: u64) -> (actions: Vec<Action>)
        ensures
            final(self)@ == step(old(self)@, event, now).0,
            actions@ == step(old(self)@, event, now).1,
    {
        let mut actions: Vec<Action> = Vec::new();
        match self.state {
            SessionState::Connecting => match event {
                Event::Connected => {
                    self.state = SessionState::Active;
                    actions.push(Action::StartProbes { interval: PROBE_INTERVAL });
                },
                Event::Frame(Frame::Malformed) => {
                    self.begin_close(CloseCause::ProtocolViolation);
                    actions.push(Action::Stop);
                },
                Event::Terminated => {
                    self.state = SessionState::Closed;
                },
                _ => {},
            },
            SessionState::Active => match event {
                Event::Connected => {},
                Event::Tick => {
                    if self.is_expired(now) {
                        self.begin_close(CloseCause::HeartbeatTimeout);
                        actions.push(Action::Stop);
                    } else {
                        actions.push(Action::SendProbe);
                    }
                },
                Event::Frame(Frame::Probe(payload)) => {
                    self.last_liveness = now;
                    actions.push(Action::SendProbeAck(payload));
                },
                Event::Frame(Frame::ProbeAck(_)) => {
                    self.last_liveness = now;
                },
                Event::Frame(Frame::Text(text)) => {
                    self.last_liveness = now;
                    actions.push(Action::SendStatus(Status::Processing));
                    actions.push(Action::Dispatch(Payload::Text(text)));
                },
                Event::Frame(Frame::Binary(bytes)) => {
                    self.last_liveness = now;
                    actions.push(Action::SendStatus(Status::Analyzing));
                    actions.push(Action::Dispatch(Payload::Binary(bytes)));
                },
                Event::Frame(Frame::Close(reason)) => {
                    self.begin_close(CloseCause::PeerClosed);
                    actions.push(Action::SendClose(reason));
                    actions.push(Action::Stop);
                },
                Event::Frame(Frame::Malformed) => {
                    self.begin_close(CloseCause::ProtocolViolation);
                    actions.push(Action::Stop);
                },
                Event::AnalysisFinished(Ok(result)) => {
                    actions.push(Action::SendResult(result));
                },
                Event::AnalysisFinished(Err(error)) => {
                    actions.push(Action::SendFailure(error));
                },
                Event::Terminated => {
                    self.state = SessionState::Closed;
                },
            },
            SessionState::Closing => match event {
                Event::Terminated => {
                    self.state = SessionState::Closed;
                },
                _ => {},
            },
            SessionState::Closed => {},
        }
        assert(actions@ =~= step(old(self)@, event, now).1);
        actions
    }

    /// Begins a close for the given cause.
    fn begin_close(&mut self, cause: CloseCause)
        ensures
            final(self)@ == closing(old(self)@, cause),
    {
        self.state = SessionState::Closing;
        self.cause = Some(cause);
    }
}

} // verus!
