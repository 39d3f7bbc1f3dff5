//! The pacing gate: one stream's emissions are spaced by at least a fixed
//! interval. Times are milliseconds on a monotonic clock that the caller
//! reads.
use vstd::prelude::*;

verus! {

/// The interval between two emissions of one stream, in milliseconds.
pub const PACING_INTERVAL_MS: u64 = 1000;

/// The abstract state of a gate: its interval and when it last let an
/// emission through, if ever.
pub struct PacingView {
    pub interval: nat,
    pub last_emit: Option<nat>,
}

/// The first clock reading at which another emission may go out.
pub open spec fn earliest_next(v: PacingView) -> nat {
    match v.last_emit {
        Some(t) => t + v.interval,
        None => 0,
    }
}

/// The earliest next time as a clock reading: past the clock's range it is
/// the clock's last value.
pub open spec fn wait_target(v: PacingView) -> nat {
    if earliest_next(v) > u64::MAX {
        u64::MAX as nat
    } else {
        earliest_next(v)
    }
}

/// The pacing state of one stream, owned by that stream alone.
pub struct PacingGate {
    interval_ms: u64,
    last_emit_ms: Option<u64>,
}

impl View for PacingGate {
    type V = PacingView;

    closed spec fn view(&self) -> PacingView {
        PacingView {
            interval: self.interval_ms as nat,
            last_emit: match self.last_emit_ms {
                Some(t) => Some(t as nat),
                None => None,
            },
        }
    }
}

impl PacingGate {
    /// A gate that has let nothing through yet.
    pub fn new(interval_ms: u64) -> (r: PacingGate)
        ensures
            r@ == (PacingView { interval: interval_ms as nat, last_emit: None }),
    {
        PacingGate { interval_ms, last_emit_ms: None }
    }

    /// A gate with the standard interval.
    pub fn with_default_interval() -> (r: PacingGate)
        ensures
            r@ == (PacingView { interval: PACING_INTERVAL_MS as nat, last_emit: None }),
    {
        PacingGate::new(PACING_INTERVAL_MS)
    }

    pub fn interval_ms(&self) -> (r: u64)
        ensures
            r as nat == self@.interval,
    {
        self.interval_ms
    }

    /// The earliest clock reading at which the next emission may go out.
    pub fn earliest_next_ms(&self) -> (r: u64)
        ensures
            r as nat == wait_target(self@),
    {
        match self.last_emit_ms {
            Some(t) => t.saturating_add(self.interval_ms),
            None => 0,
        }
    }

    /// Whether an emission may go out at `now`.
    pub fn may_emit(&self, now: u64) -> (r: bool)
        ensures
            r == (now as nat >= earliest_next(self@)),
    {
        match self.last_emit_ms {
            Some(t) => now >= t && now - t >= self.interval_ms,
            None => true,
        }
    }

    /// Notes that an emission went out at `now`.
    pub fn record_emit(&mut self, now: u64)
        ensures
            final(self)@ == (PacingView { interval: old(self)@.interval, last_emit: Some(now as nat) }),
    {
        self.last_emit_ms = Some(now);
    }
}

} // verus!
