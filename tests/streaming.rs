use web_app::decimal::decimal_string;
use web_app::event_stream::{collect_events, EventStream, StreamRequest, DEFAULT_COUNT};
use web_app::pacing::{PacingGate, PACING_INTERVAL_MS};
use web_app::session::{SessionAction, SessionEvent, StreamSession};

fn texts(v: &[&str]) -> Vec<String> {
    v.iter().map(|s| s.to_string()).collect()
}

#[test]
fn decimal_text_of_small_and_large_values() {
    assert_eq!(decimal_string(0), "0");
    assert_eq!(decimal_string(7), "7");
    assert_eq!(decimal_string(10), "10");
    assert_eq!(decimal_string(12345), "12345");
    assert_eq!(decimal_string(u64::MAX), "18446744073709551615");
}

#[test]
fn zero_count_yields_only_the_sentinel() {
    assert_eq!(collect_events(0), texts(&["[DONE]"]));
}

#[test]
fn count_three_yields_counter_then_sentinel() {
    assert_eq!(collect_events(3), texts(&["0", "1", "2", "[DONE]"]));
}

#[test]
fn default_count_yields_sixteen_events() {
    let req = StreamRequest::with_default_count();
    assert_eq!(req.count, 15);
    assert_eq!(DEFAULT_COUNT, 15);
    let events = collect_events(req.count);
    assert_eq!(events.len(), 16);
    assert_eq!(events[0], "0");
    assert_eq!(events[9], "9");
    assert_eq!(events[14], "14");
    assert_eq!(events[15], "[DONE]");
}

#[test]
fn stream_yields_nothing_after_the_sentinel() {
    let mut s = EventStream::from_request(&StreamRequest::new(1));
    assert_eq!(s.count(), 1);
    assert!(!s.is_exhausted());
    assert_eq!(s.next_event(), Some("0".to_string()));
    assert_eq!(s.next_event(), Some("[DONE]".to_string()));
    assert!(s.is_exhausted());
    assert_eq!(s.next_event(), None);
    assert_eq!(s.next_event(), None);
}

#[test]
fn restarting_a_request_begins_again_at_zero() {
    let req = StreamRequest::new(2);
    let mut first = EventStream::from_request(&req);
    assert_eq!(first.next_event(), Some("0".to_string()));
    assert_eq!(first.next_event(), Some("1".to_string()));
    let mut second = EventStream::from_request(&req);
    assert_eq!(second.next_event(), Some("0".to_string()));
}

#[test]
fn interleaved_streams_do_not_affect_each_other() {
    let mut a = EventStream::start(5);
    let mut b = EventStream::start(2);
    assert_eq!(b.next_event(), Some("0".to_string()));
    for i in 0..5u64 {
        assert_eq!(a.next_event(), Some(i.to_string()));
    }
    assert_eq!(a.next_event(), Some("[DONE]".to_string()));
    assert_eq!(b.next_event(), Some("1".to_string()));
    assert_eq!(b.next_event(), Some("[DONE]".to_string()));
    assert_eq!(a.next_event(), None);
    assert_eq!(b.next_event(), None);
}

#[test]
fn pacing_gate_spaces_emissions() {
    let mut g = PacingGate::with_default_interval();
    assert_eq!(g.interval_ms(), PACING_INTERVAL_MS);
    assert_eq!(g.earliest_next_ms(), 0);
    assert!(g.may_emit(0));
    g.record_emit(200);
    assert_eq!(g.earliest_next_ms(), 1200);
    assert!(!g.may_emit(1199));
    assert!(!g.may_emit(100));
    assert!(g.may_emit(1200));
}

#[test]
fn pacing_gate_saturates_at_clock_end() {
    let mut g = PacingGate::new(u64::MAX);
    g.record_emit(5);
    assert_eq!(g.earliest_next_ms(), u64::MAX);
    assert!(!g.may_emit(u64::MAX));
}

#[test]
fn session_emits_at_interval_with_controlled_clock() {
    let mut s = StreamSession::open(&StreamRequest::new(2));
    assert_eq!(s.step(SessionEvent::Tick(0)), SessionAction::Emit("0".to_string()));
    assert_eq!(s.step(SessionEvent::Tick(400)), SessionAction::WaitUntil(1000));
    assert_eq!(s.step(SessionEvent::Tick(999)), SessionAction::WaitUntil(1000));
    assert_eq!(s.step(SessionEvent::Tick(1000)), SessionAction::Emit("1".to_string()));
    assert_eq!(s.step(SessionEvent::Tick(2500)), SessionAction::Emit("[DONE]".to_string()));
    assert!(!s.is_closed());
    assert_eq!(s.step(SessionEvent::Tick(3500)), SessionAction::Finish);
    assert!(s.is_closed());
}

#[test]
fn session_with_zero_count_sends_only_the_sentinel() {
    let mut s = StreamSession::new(0, 50);
    assert_eq!(s.step(SessionEvent::Tick(10)), SessionAction::Emit("[DONE]".to_string()));
    assert_eq!(s.step(SessionEvent::Tick(60)), SessionAction::Finish);
}

#[test]
fn disconnect_stops_emissions() {
    let mut s = StreamSession::new(10, 1000);
    assert_eq!(s.step(SessionEvent::Tick(0)), SessionAction::Emit("0".to_string()));
    assert_eq!(s.step(SessionEvent::Disconnected), SessionAction::Finish);
    assert!(s.is_closed());
    assert_eq!(s.step(SessionEvent::Tick(5000)), SessionAction::Finish);
    assert_eq!(s.step(SessionEvent::Tick(9000)), SessionAction::Finish);
}

#[test]
fn largest_count_starts_at_zero() {
    let mut s = EventStream::start(u64::MAX);
    assert_eq!(s.count(), u64::MAX);
    assert_eq!(s.next_event(), Some("0".to_string()));
    assert_eq!(s.next_event(), Some("1".to_string()));
    assert!(!s.is_exhausted());
}
