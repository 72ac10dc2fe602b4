use sshcore::pump::{run_pump, PumpEvent, PumpState};

fn fresh() -> PumpState {
    PumpState::new()
}

#[test]
fn local_closes_first_then_remote_terminates() {
    let events = vec![
        PumpEvent::LocalData(b"ping".to_vec()),
        PumpEvent::LocalEof,
        PumpEvent::RemoteData(b"pong".to_vec()),
        PumpEvent::RemoteEof,
    ];
    let t = run_pump(fresh(), events);
    assert!(t.stopped);
    assert_eq!(t.used, 4);
    assert!(t.state.local_closed);
    assert!(t.state.remote_closed);
    assert_eq!(t.to_remote, b"ping".to_vec());
    assert_eq!(t.to_local, b"pong".to_vec());
}

#[test]
fn remote_closes_first_then_local_terminates() {
    let events = vec![
        PumpEvent::RemoteData(b"early".to_vec()),
        PumpEvent::RemoteEof,
        PumpEvent::LocalData(b"late".to_vec()),
        PumpEvent::LocalEof,
    ];
    let t = run_pump(fresh(), events);
    assert!(t.stopped);
    assert_eq!(t.used, 4);
    assert!(t.state.local_closed);
    assert!(t.state.remote_closed);
    assert_eq!(t.to_remote, b"late".to_vec());
    assert_eq!(t.to_local, b"early".to_vec());
}

#[test]
fn one_closure_alone_does_not_terminate() {
    let t = run_pump(
        fresh(),
        vec![PumpEvent::LocalEof, PumpEvent::RemoteData(b"still flowing".to_vec())],
    );
    assert!(!t.stopped);
    assert_eq!(t.used, 2);
    assert!(t.state.local_closed);
    assert!(!t.state.remote_closed);
    assert_eq!(t.to_local, b"still flowing".to_vec());
}

#[test]
fn exit_status_counts_as_remote_closure() {
    let events = vec![PumpEvent::RemoteExit, PumpEvent::LocalEof];
    let t = run_pump(fresh(), events);
    assert!(t.stopped);
    assert_eq!(t.used, 2);
    assert!(t.state.local_closed);
    assert!(t.state.remote_closed);
}

#[test]
fn no_bytes_before_closure_are_lost_in_either_order() {
    let events = vec![
        PumpEvent::LocalData(b"a".to_vec()),
        PumpEvent::RemoteData(b"1".to_vec()),
        PumpEvent::LocalData(b"b".to_vec()),
        PumpEvent::RemoteData(b"2".to_vec()),
        PumpEvent::RemoteEof,
        PumpEvent::LocalData(b"c".to_vec()),
        PumpEvent::LocalEof,
    ];
    let t = run_pump(fresh(), events);
    assert!(t.stopped);
    assert_eq!(t.to_remote, b"abc".to_vec());
    assert_eq!(t.to_local, b"12".to_vec());
}

#[test]
fn local_read_error_terminates_immediately() {
    let events = vec![
        PumpEvent::LocalData(b"x".to_vec()),
        PumpEvent::LocalReadError,
        PumpEvent::RemoteData(b"never consumed".to_vec()),
    ];
    let t = run_pump(fresh(), events);
    assert!(t.stopped);
    assert_eq!(t.used, 2);
    assert!(!t.state.local_closed);
    assert!(!t.state.remote_closed);
    assert_eq!(t.to_remote, b"x".to_vec());
    assert_eq!(t.to_local, Vec::<u8>::new());
}

#[test]
fn exhausted_sources_terminate_the_pump() {
    let t = run_pump(fresh(), vec![PumpEvent::Exhausted]);
    assert!(t.stopped);
    assert_eq!(t.used, 1);
}

#[test]
fn window_adjustments_are_discarded_without_state_change() {
    let events = vec![
        PumpEvent::RemoteOther,
        PumpEvent::LocalData(b"data".to_vec()),
        PumpEvent::RemoteOther,
    ];
    let t = run_pump(fresh(), events);
    assert!(!t.stopped);
    assert_eq!(t.used, 3);
    assert!(!t.state.local_closed);
    assert!(!t.state.remote_closed);
    assert_eq!(t.to_remote, b"data".to_vec());
}

#[test]
fn no_events_leave_the_pump_running() {
    let t = run_pump(fresh(), Vec::new());
    assert!(!t.stopped);
    assert_eq!(t.used, 0);
}
