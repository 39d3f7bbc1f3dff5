//! One client connection's stream as a state machine: the connection's
//! driver hands in what happened (the clock woke it, or the client went
//! away) and gets back what to do (send an event, sleep until a time, or
//! end the response).
use vstd::prelude::*;
use crate::event_stream::{
    event_payload, pull_state, stream_events, EventStream, EventStreamView, StreamRequest,
};
use crate::pacing::{earliest_next, wait_target, PacingGate, PacingView, PACING_INTERVAL_MS};

verus! {

/// What the driver observed.
#[derive(Clone, Copy, Debug, PartialEq, Eq, Structural)]
pub enum SessionEvent {
    /// The driver is ready to send; the argument is the clock reading.
    Tick(u64),
    /// The client closed the connection.
    Disconnected,
}

/// What the driver is to do next.
#[derive(Debug, PartialEq, Eq)]
pub enum SessionAction {
    /// Send this payload as one event.
    Emit(String),
    /// Sleep until this clock reading, then tick again.
    WaitUntil(u64),
    /// End the response; nothing more is sent.
    Finish,
}

/// The abstract form of an action.
pub enum ActionModel {
    Emit(Seq<char>),
    WaitUntil(nat),
    Finish,
}

impl View for SessionAction {
    type V = ActionModel;

    open spec fn view(&self) -> ActionModel {
        match self {
            SessionAction::Emit(s) => ActionModel::Emit(s@),
            SessionAction::WaitUntil(t) => ActionModel::WaitUntil(*t as nat),
            SessionAction::Finish => ActionModel::Finish,
        }
    }
}

/// The abstract state of a session.
pub struct SessionView {
    pub stream: EventStreamView,
    pub pacing: PacingView,
    pub closed: bool,
}

/// The state after the session handles `ev`.
pub open spec fn session_step(v: SessionView, ev: SessionEvent) -> SessionView {
    if v.closed {
        v
    } else {
        match ev {
            SessionEvent::Disconnected => SessionView { closed: true, ..v },
            SessionEvent::Tick(now) => {
                if v.stream.pulled > v.stream.count {
                    SessionView { closed: true, ..v }
                } else if (now as nat) < earliest_next(v.pacing) {
                    v
                } else {
                    SessionView {
                        stream: pull_state(v.stream),
                        pacing: PacingView { last_emit: Some(now as nat), ..v.pacing },
                        closed: false,
                    }
                }
            },
        }
    }
}

/// What the session asks for when it handles `ev`.
pub open spec fn session_action(v: SessionView, ev: SessionEvent) -> ActionModel {
    if v.closed {
        ActionModel::Finish
    } else {
        match ev {
            SessionEvent::Disconnected => ActionModel::Finish,
            SessionEvent::Tick(now) => {
                if v.stream.pulled > v.stream.count {
                    ActionModel::Finish
                } else if (now as nat) < earliest_next(v.pacing) {
                    ActionModel::WaitUntil(wait_target(v.pacing))
                } else {
                    ActionModel::Emit(event_payload(v.stream.count, v.stream.pulled))
                }
            },
        }
    }
}

/// One connection's stream, its pacing, and whether it has ended.
pub struct StreamSession {
    stream: EventStream,
    gate: PacingGate,
    closed: bool,
}

impl View for StreamSession {
    type V = SessionView;

    closed spec fn view(&self) -> SessionView {
        SessionView { stream: self.stream@, pacing: self.gate@, closed: self.closed }
    }
}

impl StreamSession {
    /// A session for a stream of `count` whose events are spaced by
    /// `interval_ms`.
    pub fn new(count: u64, interval_ms: u64) -> (r: StreamSession)
        ensures
            r@ == (SessionView {
                stream: EventStreamView { count: count as nat, pulled: 0 },
                pacing: PacingView { interval: interval_ms as nat, last_emit: None },
                closed: false,
            }),
    {
        StreamSession {
            stream: EventStream::start(count),
            gate: PacingGate::new(interval_ms),
            closed: false,
        }
    }

    /// A session for `request`, paced at the standard interval.
    pub fn open(request: &StreamRequest) -> (r: StreamSession)
        ensures
            r@ == (SessionView {
                stream: EventStreamView { count: request.count as nat, pulled: 0 },
                pacing: PacingView { interval: PACING_INTERVAL_MS as nat, last_emit: None },
                closed: false,
            }),
    {
        StreamSession::new(request.count, PACING_INTERVAL_MS)
    }

    /// Whether the session has ended.
    pub fn is_closed(&self) -> (r: bool)
        ensures
            r == self@.closed,
    {
        self.closed
    }

    /// Handles one event and says what to do next.
    pub fn step(&mut self, ev: SessionEvent) -> (r: SessionAction)
        ensures
            final(self)@ == session_step(old(self)@, ev),
            r@ == session_action(old(self)@, ev),
    {
        if self.closed {
            return SessionAction::Finish;
        }
        match ev {
            SessionEvent::Disconnected => {
                self.closed = true;
                SessionAction::Finish
            },
            SessionEvent::Tick(now) => {
                if self.stream.is_exhausted() {
                    self.closed = true;
                    SessionAction::Finish
                } else if !self.gate.may_emit(now) {
                    SessionAction::WaitUntil(self.gate.earliest_next_ms())
                } else {
                    match self.stream.next_event() {
                        Some(payload) => {
                            self.gate.record_emit(now);
                            SessionAction::Emit(payload)
                        },
                        None => {
                            self.closed = true;
                            SessionAction::Finish
                        },
                    }
                }
            },
        }
    }
}

/// The session driven through `evs` in order: its final state and every
/// action it asked for.
pub open spec fn run_session(v: SessionView, evs: Seq<SessionEvent>) -> (SessionView, Seq<ActionModel>)
    decreases evs.len(),
{
    if evs.len() == 0 {
        (v, Seq::empty())
    } else {
        let prev = run_session(v, evs.drop_last());
        (session_step(prev.0, evs.last()), prev.1.push(session_action(prev.0, evs.last())))
    }
}

/// The clock readings at which the session emitted, driven through `evs`.
pub open spec fn emit_times(v: SessionView, evs: Seq<SessionEvent>) -> Seq<nat>
    decreases evs.len(),
{
    if evs.len() == 0 {
        Seq::empty()
    } else {
        let prev = run_session(v, evs.drop_last()).0;
        let earlier = emit_times(v, evs.drop_last());
        match evs.last() {
            SessionEvent::Tick(now) => if session_action(prev, evs.last()) is Emit {
                earlier.push(now as nat)
            } else {
                earlier
            },
            SessionEvent::Disconnected => earlier,
        }
    }
}

/// The payloads that the session emitted, driven through `evs`.
pub open spec fn emitted_payloads(v: SessionView, evs: Seq<SessionEvent>) -> Seq<Seq<char>>
    decreases evs.len(),
{
    if evs.len() == 0 {
        Seq::empty()
    } else {
        let prev = run_session(v, evs.drop_last()).0;
        let earlier = emitted_payloads(v, evs.drop_last());
        match session_action(prev, evs.last()) {
            ActionModel::Emit(p) => earlier.push(p),
            _ => earlier,
        }
    }
}

/// One action for each event.
pub proof fn lemma_run_len(v: SessionView, evs: Seq<SessionEvent>)
    ensures
        run_session(v, evs).1.len() == evs.len(),
    decreases evs.len(),
{
    if evs.len() > 0 {
        lemma_run_len(v, evs.drop_last());
    }
}

/// Whatever the driver hands in, two emissions of one session are at least
/// the pacing interval apart, and the first comes no earlier than the
/// interval after the last emission before the run.
pub proof fn lemma_emissions_paced(v: SessionView, evs: Seq<SessionEvent>)
    ensures
        forall|j: int|
            0 <= j < emit_times(v, evs).len() - 1 ==> #[trigger] emit_times(v, evs)[j + 1]
                >= emit_times(v, evs)[j] + v.pacing.interval,
        emit_times(v, evs).len() > 0 && v.pacing.last_emit is Some ==> emit_times(v, evs)[0]
            >= v.pacing.last_emit->Some_0 + v.pacing.interval,
        run_session(v, evs).0.pacing.interval == v.pacing.interval,
        run_session(v, evs).0.pacing.last_emit == if emit_times(v, evs).len() > 0 {
            Some(emit_times(v, evs).last())
        } else {
            v.pacing.last_emit
        },
    decreases evs.len(),
{
    if evs.len() > 0 {
        lemma_emissions_paced(v, evs.drop_last());
        let earlier = emit_times(v, evs.drop_last());
        let times = emit_times(v, evs);
        if times.len() > earlier.len() {
            assert forall|j: int| 0 <= j < times.len() - 1 implies #[trigger] times[j + 1]
                >= times[j] + v.pacing.interval by {
                if j + 1 < earlier.len() {
                    assert(times[j + 1] == earlier[j + 1]);
                }
            }
        }
    }
}

/// Once the client has gone away the session asks for nothing but the end:
/// no event is emitted after a disconnect, whatever follows it.
pub proof fn lemma_no_emit_after_disconnect(
    v: SessionView,
    before: Seq<SessionEvent>,
    after: Seq<SessionEvent>,
)
    ensures
        run_session(v, before.push(SessionEvent::Disconnected) + after).0.closed,
        forall|i: int|
            before.len() <= i < before.len() + 1 + after.len() ==> #[trigger] run_session(
                v,
                before.push(SessionEvent::Disconnected) + after,
            ).1[i] == ActionModel::Finish,
    decreases after.len(),
{
    let evs = before.push(SessionEvent::Disconnected) + after;
    lemma_run_len(v, evs);
    if after.len() == 0 {
        assert(evs =~= before.push(SessionEvent::Disconnected));
        assert(evs.drop_last() =~= before);
        lemma_run_len(v, before);
    } else {
        lemma_no_emit_after_disconnect(v, before, after.drop_last());
        assert(evs.drop_last() =~= before.push(SessionEvent::Disconnected) + after.drop_last());
        lemma_run_len(v, evs.drop_last());
    }
}

/// A fresh session of `count` emits, whatever the driver hands in, a prefix
/// of the stream's events in order, and never more than the `count + 1` of
/// them.
pub proof fn lemma_session_payloads(count: nat, interval: nat, evs: Seq<SessionEvent>)
    ensures
        ({
            let v = SessionView {
                stream: EventStreamView { count, pulled: 0 },
                pacing: PacingView { interval, last_emit: None },
                closed: false,
            };
            &&& emitted_payloads(v, evs).len() <= count + 1
            &&& emitted_payloads(v, evs) == stream_events(count).take(
                emitted_payloads(v, evs).len() as int,
            )
            &&& run_session(v, evs).0.stream == (EventStreamView {
                count,
                pulled: emitted_payloads(v, evs).len(),
            })
        }),
    decreases evs.len(),
{
    let v = SessionView {
        stream: EventStreamView { count, pulled: 0 },
        pacing: PacingView { interval, last_emit: None },
        closed: false,
    };
    if evs.len() > 0 {
        lemma_session_payloads(count, interval, evs.drop_last());
        assert(emitted_payloads(v, evs) =~= stream_events(count).take(
            emitted_payloads(v, evs).len() as int,
        ));
    }
}

} // verus!
