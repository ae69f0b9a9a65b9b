//! What holds of every run of a session.
//!
//! A run feeds a session one timed event after another and collects the
//! actions it asks for into one trace, in the order in which its owner
//! carries them out. The laws below speak of such runs.

use crate::session::{
    closing, step, Action, CloseCause, Event, Frame, Payload, SessionModel, SessionState,
    Status, LIVENESS_TIMEOUT, PROBE_INTERVAL,
};
use vstd::prelude::*;

verus! {

/// The session after the events, each taken at its time, and the trace of
/// all actions asked for on the way.
pub open spec fn run(m: SessionModel, events: Seq<(Event, u64)>) -> (SessionModel, Seq<Action>)
    decreases events.len(),
{
    if events.len() == 0 {
        (m, Seq::empty())
    } else {
        let before = run(m, events.drop_last());
        let last = step(before.0, events.last().0, events.last().1);
        (last.0, before.1 + last.1)
    }
}

/// The position of a state in the life of a session.
pub open spec fn rank(state: SessionState) -> nat {
    match state {
        SessionState::Connecting => 0,
        SessionState::Active => 1,
        SessionState::Closing => 2,
        SessionState::Closed => 3,
    }
}

/// No event changes the client of a session or takes a session back to an
/// earlier state, and a closed session neither changes nor asks for anything.
pub proof fn lemma_step_keeps_order(m: SessionModel, event: Event, now: u64)
    ensures
        step(m, event, now).0.client_id == m.client_id,
        rank(step(m, event, now).0.state) >= rank(m.state),
        m.state == SessionState::Closed ==> step(m, event, now) == (m, Seq::<Action>::empty()),
{
}

/// Throughout a run the client stays the same and the state never goes back;
/// a run from a closed session leaves it as it was, with an empty trace.
pub proof fn lemma_run_keeps_order(m: SessionModel, events: Seq<(Event, u64)>)
    ensures
        run(m, events).0.client_id == m.client_id,
        rank(run(m, events).0.state) >= rank(m.state),
        m.state == SessionState::Closed ==> run(m, events) == (m, Seq::<Action>::empty()),
    decreases events.len(),
{
    if events.len() > 0 {
        lemma_run_keeps_order(m, events.drop_last());
        let before = run(m, events.drop_last());
        lemma_step_keeps_order(before.0, events.last().0, events.last().1);
        if m.state == SessionState::Closed {
            assert(before.1 + Seq::<Action>::empty() =~= Seq::<Action>::empty());
        }
    }
}

/// Only an active session sends anything in answer to its peer: outside that
/// state a step asks at most to start the probes or to stop.
pub proof fn lemma_inactive_is_silent(m: SessionModel, event: Event, now: u64)
    requires
        m.state != SessionState::Active,
    ensures
        forall|i: int|
            0 <= i < step(m, event, now).1.len() ==> {
                let action = #[trigger] step(m, event, now).1[i];
                action is StartProbes || action is Stop
            },
        step(m, event, now).0.last_liveness == m.last_liveness,
{
}

/// The liveness ticks at the given times.
pub open spec fn ticks(times: Seq<u64>) -> Seq<(Event, u64)> {
    Seq::new(times.len(), |i: int| (Event::Tick, times[i]))
}

/// A tick that finds the peer of an active session silent for longer than
/// the timeout begins the close, for that cause, and stops the session. A
/// tick that finds a shorter silence sends a probe and changes nothing.
pub proof fn lemma_tick(m: SessionModel, now: u64)
    requires
        m.state == SessionState::Active,
    ensures
        now - m.last_liveness > LIVENESS_TIMEOUT ==> step(m, Event::Tick, now) == (
            closing(m, CloseCause::HeartbeatTimeout),
            seq![Action::Stop],
        ),
        now - m.last_liveness <= LIVENESS_TIMEOUT ==> step(m, Event::Tick, now) == (
            m,
            seq![Action::SendProbe],
        ),
{
}

/// A close begins for one of three causes only, and the step that begins it
/// ends by stopping the liveness timer and the transport: a tick after a
/// silence beyond the timeout, a close frame of the peer, which is
/// acknowledged first, or a malformed frame.
pub proof fn lemma_close_stops(m: SessionModel, event: Event, now: u64)
    requires
        m.state != SessionState::Closing,
        step(m, event, now).0.state == SessionState::Closing,
    ensures
        step(m, event, now).1.len() > 0,
        step(m, event, now).1.last() == Action::Stop,
        step(m, event, now).0.cause == Some(CloseCause::HeartbeatTimeout) <==> event is Tick,
        step(m, event, now).0.cause == Some(CloseCause::PeerClosed) <==> event
            matches Event::Frame(Frame::Close(_)),
        step(m, event, now).0.cause == Some(CloseCause::ProtocolViolation) <==> event
            matches Event::Frame(Frame::Malformed),
        event matches Event::Frame(Frame::Close(reason)) ==> step(m, event, now).1 == seq![
            Action::SendClose(reason),
            Action::Stop,
        ],
        event is Tick ==> now - m.last_liveness > LIVENESS_TIMEOUT,
{
}

/// Every probe, acknowledgment and data frame that an active session takes
/// counts as hearing from the peer at that time.
pub proof fn lemma_frame_renews_liveness(m: SessionModel, frame: Frame, now: u64)
    requires
        m.state == SessionState::Active,
        frame is Probe || frame is ProbeAck || frame is Text || frame is Binary,
    ensures
        step(m, Event::Frame(frame), now).0 == (SessionModel { last_liveness: now, ..m }),
{
}

/// While nothing but ticks arrives, an active session stays as it is for as
/// long as each tick comes within the timeout after the peer was last heard
/// from; the first tick that comes later begins the close.
pub proof fn lemma_silence_closes(m: SessionModel, times: Seq<u64>, late: u64)
    requires
        m.state == SessionState::Active,
        forall|i: int| 0 <= i < times.len() ==> times[i] - m.last_liveness <= LIVENESS_TIMEOUT,
        late - m.last_liveness > LIVENESS_TIMEOUT,
    ensures
        run(m, ticks(times)).0 == m,
        run(m, ticks(times.push(late))).0 == closing(m, CloseCause::HeartbeatTimeout),
        run(m, ticks(times.push(late))).0.state == SessionState::Closing,
    decreases times.len(),
{
    if times.len() > 0 {
        let earlier = times.drop_last();
        lemma_silence_closes(m, earlier, late);
        assert(ticks(times).drop_last() =~= ticks(earlier));
        assert(ticks(times).last() == (Event::Tick, times.last()));
    }
    assert(ticks(times.push(late)).drop_last() =~= ticks(times));
    assert(ticks(times.push(late)).last() == (Event::Tick, late));
}

/// The kinds of action that the order of a trace is about.
pub enum Kind {
    /// The immediate answer to a data frame.
    Ack,
    /// The handing of a frame to the analysis dispatcher.
    Dispatch,
    /// The sending of an analysis outcome, good or bad, to the peer.
    Outcome,
}

/// With a tick at every probe interval after the peer was last heard from,
/// an active session outlives the first two ticks unchanged and begins to
/// close at the third.
pub proof fn lemma_third_tick_closes(m: SessionModel)
    requires
        m.state == SessionState::Active,
        m.last_liveness + 3 * PROBE_INTERVAL <= u64::MAX,
    ensures
        run(
            m,
            ticks(
                seq![
                    (m.last_liveness + PROBE_INTERVAL) as u64,
                    (m.last_liveness + 2 * PROBE_INTERVAL) as u64,
                ],
            ),
        ).0 == m,
        run(
            m,
            ticks(
                seq![
                    (m.last_liveness + PROBE_INTERVAL) as u64,
                    (m.last_liveness + 2 * PROBE_INTERVAL) as u64,
                    (m.last_liveness + 3 * PROBE_INTERVAL) as u64,
                ],
            ),
        ).0 == closing(m, CloseCause::HeartbeatTimeout),
{
    let first = (m.last_liveness + PROBE_INTERVAL) as u64;
    let second = (m.last_liveness + 2 * PROBE_INTERVAL) as u64;
    let third = (m.last_liveness + 3 * PROBE_INTERVAL) as u64;
    lemma_silence_closes(m, seq![first, second], third);
    assert(seq![first, second].push(third) =~= seq![first, second, third]);
}

/// Whether an action is of the given kind.
pub open spec fn of_kind(action: Action, kind: Kind) -> bool {
    match kind {
        Kind::Ack => action is SendStatus,
        Kind::Dispatch => action is Dispatch,
        Kind::Outcome => action is SendResult || action is SendFailure,
    }
}

/// How many of the actions are of the given kind.
pub open spec fn count(actions: Seq<Action>, kind: Kind) -> nat
    decreases actions.len(),
{
    if actions.len() == 0 {
        0
    } else {
        count(actions.drop_last(), kind) + if of_kind(actions.last(), kind) {
            1nat
        } else {
            0nat
        }
    }
}

/// How many of the events report the outcome of an analysis.
pub open spec fn completions(events: Seq<(Event, u64)>) -> nat
    decreases events.len(),
{
    if events.len() == 0 {
        0
    } else {
        completions(events.drop_last()) + if events.last().0 is AnalysisFinished {
            1nat
        } else {
            0nat
        }
    }
}

/// An active session answers a data frame at once and only then hands it to
/// the dispatcher: the step asks for the status and for the dispatch of that
/// frame's payload, in this order, and for nothing else.
pub proof fn lemma_data_frame_is_acknowledged_first(m: SessionModel, frame: Frame, now: u64)
    requires
        m.state == SessionState::Active,
    ensures
        frame matches Frame::Text(text) ==> step(m, Event::Frame(frame), now).1 == seq![
            Action::SendStatus(Status::Processing),
            Action::Dispatch(Payload::Text(text)),
        ],
        frame matches Frame::Binary(bytes) ==> step(m, Event::Frame(frame), now).1 == seq![
            Action::SendStatus(Status::Analyzing),
            Action::Dispatch(Payload::Binary(bytes)),
        ],
{
}

/// In every step, whatever is dispatched stands directly behind its
/// acknowledgment, and an outcome is sent only when an active session is
/// told that an analysis has finished: then it is all that the step asks
/// for. A session that is not active drops the outcome.
pub proof fn lemma_step_orders_acknowledgment(m: SessionModel, event: Event, now: u64)
    ensures
        forall|i: int|
            0 <= i < step(m, event, now).1.len() && of_kind(
                #[trigger] step(m, event, now).1[i],
                Kind::Dispatch,
            ) ==> i > 0 && of_kind(step(m, event, now).1[i - 1], Kind::Ack),
        forall|i: int|
            0 <= i < step(m, event, now).1.len() && of_kind(
                #[trigger] step(m, event, now).1[i],
                Kind::Outcome,
            ) ==> event is AnalysisFinished && m.state == SessionState::Active && step(
                m,
                event,
                now,
            ).1.len() == 1,
        event is AnalysisFinished && m.state != SessionState::Active ==> step(m, event, now).1.len()
            == 0,
{
}

/// Whether the outcomes in a run are reported in the order of cause and
/// effect: by the time an outcome is reported, the run has dispatched at
/// least as many frames as outcomes have been reported, this one included.
pub open spec fn causal(m: SessionModel, events: Seq<(Event, u64)>) -> bool {
    forall|k: int|
        0 <= k < events.len() && (#[trigger] events[k]).0 is AnalysisFinished ==> completions(
            events.take(k + 1),
        ) <= count(run(m, events.take(k)).1, Kind::Dispatch)
}

/// The count of a trace in two parts is the sum of the counts of the parts.
proof fn lemma_count_concat(a: Seq<Action>, b: Seq<Action>, kind: Kind)
    ensures
        count(a + b, kind) == count(a, kind) + count(b, kind),
    decreases b.len(),
{
    if b.len() == 0 {
        assert(a + b =~= a);
    } else {
        assert((a + b).drop_last() =~= a + b.drop_last());
        lemma_count_concat(a, b.drop_last(), kind);
    }
}

/// A prefix of a trace counts no more than the trace.
proof fn lemma_count_prefix(a: Seq<Action>, i: int, kind: Kind)
    requires
        0 <= i <= a.len(),
    ensures
        count(a.take(i), kind) <= count(a, kind),
{
    assert(a =~= a.take(i) + a.skip(i));
    lemma_count_concat(a.take(i), a.skip(i), kind);
}

/// The count of a trace of at most two actions.
proof fn lemma_count_short(a: Seq<Action>, kind: Kind)
    requires
        a.len() <= 2,
    ensures
        count(a, kind) == (if a.len() >= 1 && of_kind(a[0], kind) {
            1nat
        } else {
            0nat
        }) + (if a.len() == 2 && of_kind(a[1], kind) {
            1nat
        } else {
            0nat
        }),
{
    reveal_with_fuel(count, 3);
    if a.len() == 2 {
        assert(a.drop_last()[0] == a[0]);
    }
}

/// In a single step as many frames are dispatched as are acknowledged, and
/// an outcome is sent only for an event that reports one, and then only one.
proof fn lemma_step_counts(m: SessionModel, event: Event, now: u64)
    ensures
        count(step(m, event, now).1, Kind::Ack) == count(step(m, event, now).1, Kind::Dispatch),
        count(step(m, event, now).1, Kind::Outcome) <= (if event is AnalysisFinished {
            1nat
        } else {
            0nat
        }),
{
    let actions = step(m, event, now).1;
    lemma_count_short(actions, Kind::Ack);
    lemma_count_short(actions, Kind::Dispatch);
    lemma_count_short(actions, Kind::Outcome);
}

/// At every point of a run whose outcomes are reported in the order of cause
/// and effect, the peer has been sent at least as many acknowledgments as
/// outcomes: no outcome overtakes the acknowledgment of its frame, however
/// late the analysis finishes. Over the whole run, no more outcomes are sent
/// than were reported, and every dispatch has its acknowledgment.
pub proof fn lemma_outcomes_follow_acknowledgments(m: SessionModel, events: Seq<(Event, u64)>)
    requires
        causal(m, events),
    ensures
        count(run(m, events).1, Kind::Outcome) <= completions(events),
        count(run(m, events).1, Kind::Ack) == count(run(m, events).1, Kind::Dispatch),
        forall|j: int|
            0 <= j <= run(m, events).1.len() ==> count(
                #[trigger] run(m, events).1.take(j),
                Kind::Outcome,
            ) <= count(run(m, events).1.take(j), Kind::Ack),
    decreases events.len(),
{
    let trace = run(m, events).1;
    if events.len() == 0 {
        assert forall|j: int| 0 <= j <= trace.len() implies count(
            #[trigger] trace.take(j),
            Kind::Outcome,
        ) <= count(trace.take(j), Kind::Ack) by {
            assert(trace.take(j) =~= trace);
        }
    } else {
        let n = events.len() as int;
        let prev = events.drop_last();
        let last = events.last();
        assert(causal(m, prev)) by {
            assert forall|k: int|
                0 <= k < prev.len() && (#[trigger] prev[k]).0 is AnalysisFinished implies completions(
                prev.take(k + 1),
            ) <= count(run(m, prev.take(k)).1, Kind::Dispatch) by {
                assert(prev.take(k + 1) =~= events.take(k + 1));
                assert(prev.take(k) =~= events.take(k));
                assert(events[k] == prev[k]);
            }
        }
        lemma_outcomes_follow_acknowledgments(m, prev);
        let before = run(m, prev);
        let asked = step(before.0, last.0, last.1).1;
        assert(trace == before.1 + asked);
        lemma_step_counts(before.0, last.0, last.1);
        lemma_count_concat(before.1, asked, Kind::Outcome);
        lemma_count_concat(before.1, asked, Kind::Ack);
        lemma_count_concat(before.1, asked, Kind::Dispatch);
        assert(before.1.take(before.1.len() as int) =~= before.1);
        if last.0 is AnalysisFinished {
            assert(events[n - 1] == last);
            assert(events.take(n) =~= events);
            assert(events.take(n - 1) =~= prev);
        }
        assert forall|j: int| 0 <= j <= trace.len() implies count(
            #[trigger] trace.take(j),
            Kind::Outcome,
        ) <= count(trace.take(j), Kind::Ack) by {
            if j <= before.1.len() {
                assert(trace.take(j) =~= before.1.take(j));
            } else {
                let i = j - before.1.len();
                assert(trace.take(j) =~= before.1 + asked.take(i));
                lemma_count_concat(before.1, asked.take(i), Kind::Outcome);
                lemma_count_concat(before.1, asked.take(i), Kind::Ack);
                lemma_count_prefix(asked, i, Kind::Outcome);
            }
        }
    }
}

} // verus!
