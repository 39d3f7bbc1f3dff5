use web_app::shutdown::{Phase, ShutdownCoordinator, ShutdownSignal};

#[test]
fn new_coordinator_admits() {
    let mut c = ShutdownCoordinator::new();
    assert_eq!(c.phase(), Phase::Running);
    assert!(c.is_accepting());
    assert!(!c.should_exit());
    assert!(c.try_admit());
    assert!(c.try_admit());
    assert_eq!(c.active_connections(), 2);
    c.release();
    assert_eq!(c.active_connections(), 1);
    assert_eq!(c.phase(), Phase::Running);
}

#[test]
fn signal_drains_then_stops_when_last_stream_ends() {
    let mut c = ShutdownCoordinator::new();
    assert!(c.try_admit());
    assert!(c.on_signal(ShutdownSignal::Terminate));
    assert_eq!(c.phase(), Phase::Draining);
    assert!(!c.is_accepting());
    assert!(!c.try_admit());
    assert_eq!(c.active_connections(), 1);
    assert!(!c.should_exit());
    c.release();
    assert_eq!(c.phase(), Phase::Stopped);
    assert!(c.should_exit());
    assert!(!c.try_admit());
}

#[test]
fn signal_with_no_open_connection_stops_at_once() {
    let mut c = ShutdownCoordinator::new();
    assert!(c.on_signal(ShutdownSignal::Interrupt));
    assert_eq!(c.phase(), Phase::Stopped);
    assert!(c.should_exit());
}

#[test]
fn first_signal_wins() {
    let mut c = ShutdownCoordinator::new();
    assert!(c.try_admit());
    assert_eq!(c.signal_received(), None);
    assert!(c.on_signal(ShutdownSignal::Interrupt));
    assert!(!c.on_signal(ShutdownSignal::Terminate));
    assert_eq!(c.signal_received(), Some(ShutdownSignal::Interrupt));
    assert_eq!(c.phase(), Phase::Draining);
}
