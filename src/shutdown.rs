//! The shutdown coordinator: the first termination signal stops the intake
//! of new connections; the process may stop once no admitted connection is
//! still open. Open streams are never cut short by it.
use vstd::prelude::*;

verus! {

/// A termination signal from the operating environment.
#[derive(Clone, Copy, Debug, PartialEq, Eq, Structural)]
pub enum ShutdownSignal {
    Interrupt,
    Terminate,
}

/// The coordinator's phase; it only moves forward.
#[derive(Clone, Copy, Debug, PartialEq, Eq, Structural)]
pub enum Phase {
    /// New connections are admitted.
    Running,
    /// A signal came; no new connection is admitted and open ones run on.
    Draining,
    /// No connection is open any more: the process may exit.
    Stopped,
}

/// What the routing layer reports to the coordinator.
pub enum CoordinatorEvent {
    Signal(ShutdownSignal),
    /// A new connection asks to be admitted.
    Admit,
    /// An admitted connection has ended.
    Release,
}

/// The abstract state of the coordinator.
pub struct CoordinatorView {
    pub phase: Phase,
    pub active: nat,
    pub signal: Option<ShutdownSignal>,
}

/// The states that the coordinator can be in: it stops only when idle, and
/// it has left `Running` exactly when it has received a signal.
pub open spec fn coordinator_wf(v: CoordinatorView) -> bool {
    &&& v.phase == Phase::Stopped ==> v.active == 0
    &&& (v.phase == Phase::Running) == (v.signal is None)
}

/// The phase reached when draining with `active` open connections.
pub open spec fn drain_phase(active: nat) -> Phase {
    if active == 0 {
        Phase::Stopped
    } else {
        Phase::Draining
    }
}

/// The state after the coordinator handles `ev`. A release with no open
/// connection is not a report the routing layer makes, and changes nothing.
pub open spec fn coordinator_step(v: CoordinatorView, ev: CoordinatorEvent) -> CoordinatorView {
    match ev {
        CoordinatorEvent::Signal(sig) => if v.phase == Phase::Running {
            CoordinatorView { phase: drain_phase(v.active), active: v.active, signal: Some(sig) }
        } else {
            v
        },
        CoordinatorEvent::Admit => if v.phase == Phase::Running && v.active < u64::MAX {
            CoordinatorView { active: v.active + 1, ..v }
        } else {
            v
        },
        CoordinatorEvent::Release => if v.active == 0 {
            v
        } else if v.phase == Phase::Draining {
            CoordinatorView {
                phase: drain_phase((v.active - 1) as nat),
                active: (v.active - 1) as nat,
                signal: v.signal,
            }
        } else {
            CoordinatorView { active: (v.active - 1) as nat, ..v }
        },
    }
}

/// What the coordinator answers to `ev`: whether a signal started the
/// drain, whether a connection was admitted; `true` for a release.
pub open spec fn coordinator_answer(v: CoordinatorView, ev: CoordinatorEvent) -> bool {
    match ev {
        CoordinatorEvent::Signal(_) => v.phase == Phase::Running,
        CoordinatorEvent::Admit => v.phase == Phase::Running && v.active < u64::MAX,
        CoordinatorEvent::Release => true,
    }
}

/// Process-wide shutdown state, shared by the routing layer.
pub struct ShutdownCoordinator {
    phase: Phase,
    active: u64,
    signal: Option<ShutdownSignal>,
}

impl View for ShutdownCoordinator {
    type V = CoordinatorView;

    closed spec fn view(&self) -> CoordinatorView {
        CoordinatorView { phase: self.phase, active: self.active as nat, signal: self.signal }
    }
}

impl ShutdownCoordinator {
    #[verifier::type_invariant]
    spec fn well_formed(&self) -> bool {
        coordinator_wf(self@)
    }

    /// A coordinator that admits connections and has none open.
    pub fn new() -> (r: ShutdownCoordinator)
        ensures
            r@ == (CoordinatorView { phase: Phase::Running, active: 0, signal: None }),
    {
        ShutdownCoordinator { phase: Phase::Running, active: 0, signal: None }
    }

    pub fn phase(&self) -> (r: Phase)
        ensures
            r == self@.phase,
    {
        self.phase
    }

    pub fn active_connections(&self) -> (r: u64)
        ensures
            r as nat == self@.active,
    {
        self.active
    }

    /// The signal that started the drain, if one came.
    pub fn signal_received(&self) -> (r: Option<ShutdownSignal>)
        ensures
            r == self@.signal,
    {
        self.signal
    }

    /// Whether new connections are admitted.
    pub fn is_accepting(&self) -> (r: bool)
        ensures
            r == (self@.phase == Phase::Running),
    {
        self.phase == Phase::Running
    }

    /// Whether the process may exit: a signal came and no connection is
    /// open.
    pub fn should_exit(&self) -> (r: bool)
        ensures
            r == (self@.phase == Phase::Stopped),
            r ==> self@.active == 0 && self@.signal is Some,
    {
        proof {
            use_type_invariant(self);
        }
        self.phase == Phase::Stopped
    }

    /// Handles a termination signal. The first one starts the drain and
    /// answers `true`; later ones change nothing.
    pub fn on_signal(&mut self, sig: ShutdownSignal) -> (r: bool)
        ensures
            final(self)@ == coordinator_step(old(self)@, CoordinatorEvent::Signal(sig)),
            r == coordinator_answer(old(self)@, CoordinatorEvent::Signal(sig)),
    {
        proof {
            use_type_invariant(&*self);
        }
        if self.phase == Phase::Running {
            let phase = if self.active == 0 {
                Phase::Stopped
            } else {
                Phase::Draining
            };
            *self = ShutdownCoordinator { phase, active: self.active, signal: Some(sig) };
            true
        } else {
            false
        }
    }

    /// Asks to admit a new connection: granted, and counted as open, only
    /// while running (and while the count has room).
    pub fn try_admit(&mut self) -> (r: bool)
        ensures
            final(self)@ == coordinator_step(old(self)@, CoordinatorEvent::Admit),
            r == coordinator_answer(old(self)@, CoordinatorEvent::Admit),
    {
        proof {
            use_type_invariant(&*self);
        }
        if self.phase == Phase::Running && self.active < u64::MAX {
            self.active = self.active + 1;
            true
        } else {
            false
        }
    }

    /// Notes that an admitted connection has ended; the last one to end
    /// during the drain stops the coordinator.
    pub fn release(&mut self)
        requires
            old(self)@.active > 0,
        ensures
            final(self)@ == coordinator_step(old(self)@, CoordinatorEvent::Release),
    {
        proof {
            use_type_invariant(&*self);
        }
        self.active = self.active - 1;
        if self.phase == Phase::Draining && self.active == 0 {
            self.phase = Phase::Stopped;
        }
    }
}

/// The coordinator driven through `evs` in order: its final state and each
/// answer.
pub open spec fn run_coordinator(v: CoordinatorView, evs: Seq<CoordinatorEvent>) -> (
    CoordinatorView,
    Seq<bool>,
)
    decreases evs.len(),
{
    if evs.len() == 0 {
        (v, Seq::empty())
    } else {
        let prev = run_coordinator(v, evs.drop_last());
        (
            coordinator_step(prev.0, evs.last()),
            prev.1.push(coordinator_answer(prev.0, evs.last())),
        )
    }
}

/// Every state the coordinator reaches is well formed: in particular it
/// reaches `Stopped`, and lets the process exit, only when no admitted
/// connection is still open.
pub proof fn lemma_stops_only_when_idle(v: CoordinatorView, evs: Seq<CoordinatorEvent>)
    requires
        coordinator_wf(v),
    ensures
        coordinator_wf(run_coordinator(v, evs).0),
        run_coordinator(v, evs).1.len() == evs.len(),
    decreases evs.len(),
{
    if evs.len() > 0 {
        lemma_stops_only_when_idle(v, evs.drop_last());
    }
}

/// After a termination signal no new connection is admitted, whatever
/// follows; the phase never goes back, and once stopped nothing changes;
/// the first signal stays the one recorded; and the connections
/// already open are never dropped by the coordinator: it counts one less
/// only for each release the routing layer reports.
pub proof fn lemma_drain_admits_none(v: CoordinatorView, evs: Seq<CoordinatorEvent>)
    requires
        coordinator_wf(v),
        v.phase != Phase::Running,
    ensures
        run_coordinator(v, evs).0.phase != Phase::Running,
        run_coordinator(v, evs).0.signal == v.signal,
        forall|i: int|
            0 <= i < evs.len() && evs[i] is Admit ==> !#[trigger] run_coordinator(v, evs).1[i],
        run_coordinator(v, evs).0.active + count_releases(evs) >= v.active,
        v.phase == Phase::Stopped ==> run_coordinator(v, evs).0 == v,
    decreases evs.len(),
{
    lemma_stops_only_when_idle(v, evs);
    if evs.len() > 0 {
        lemma_drain_admits_none(v, evs.drop_last());
        lemma_stops_only_when_idle(v, evs.drop_last());
        assert forall|i: int|
            0 <= i < evs.len() && evs[i] is Admit implies !#[trigger] run_coordinator(v, evs).1[i] by {
            if i < evs.len() - 1 {
                assert(evs.drop_last()[i] == evs[i]);
            }
        }
    }
}

/// How many releases `evs` reports.
pub open spec fn count_releases(evs: Seq<CoordinatorEvent>) -> nat
    decreases evs.len(),
{
    if evs.len() == 0 {
        0
    } else {
        count_releases(evs.drop_last()) + if evs.last() is Release {
            1nat
        } else {
            0nat
        }
    }
}

} // verus!
