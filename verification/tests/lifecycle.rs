use dust::sqlite_workers::lifecycle::{
    core_request, core_response, heartbeat, shutdown, Action, Event, Lifecycle, LifecycleError,
    Phase, CORE_REQUEST_TIMEOUT_MS, DEREGISTER_ATTEMPTS, EXIT_PAUSE_MS, HEARTBEAT_INTERVAL_MS,
};
use dust::sqlite_workers::sqlite_workers::HttpMethod;

fn run(events: &[Event]) -> (Lifecycle, Vec<Action>) {
    let mut state = Lifecycle::new();
    let actions = events.iter().map(|e| state.step(*e)).collect();
    (state, actions)
}

#[test]
fn the_constants_are_those_of_the_protocol() {
    assert_eq!(HEARTBEAT_INTERVAL_MS, 1024);
    assert_eq!(CORE_REQUEST_TIMEOUT_MS, 2000);
    assert_eq!(DEREGISTER_ATTEMPTS, 3);
    assert_eq!(EXIT_PAUSE_MS, 1000);
}

#[test]
fn a_running_worker_heartbeats_and_sleeps_whether_the_heartbeat_worked_or_not() {
    let (state, actions) = run(&[
        Event::HeartbeatDue,
        Event::HeartbeatDone { ok: true },
        Event::HeartbeatDue,
        Event::HeartbeatDone { ok: false },
    ]);
    assert_eq!(
        actions,
        vec![
            Action::SendHeartbeat,
            Action::Sleep { ms: 1024 },
            Action::SendHeartbeat,
            Action::Sleep { ms: 1024 },
        ]
    );
    assert_eq!(state, Lifecycle { phase: Phase::Running, failed: false });
    assert!(!state.is_shutting_down());
}

#[test]
fn a_clean_shutdown_deregisters_then_stops_then_drains_then_exits_with_zero() {
    let (state, actions) = run(&[
        Event::Terminate,
        Event::DeregisterDone { ok: true },
        Event::ServerStopped { ok: true },
        Event::Drained { ok: true },
        Event::PauseOver,
    ]);
    assert_eq!(
        actions,
        vec![
            Action::SendDeregister,
            Action::StopAccepting,
            Action::Drain,
            Action::Pause { ms: 1000 },
            Action::Exit { code: 0 },
        ]
    );
    assert_eq!(state, Lifecycle { phase: Phase::Exited, failed: false });
    assert!(state.is_shutting_down());
}

#[test]
fn heartbeats_stop_once_the_worker_was_told_to_terminate() {
    let (_, actions) = run(&[
        Event::Terminate,
        Event::HeartbeatDue,
        Event::HeartbeatDone { ok: true },
        Event::DeregisterDone { ok: true },
        Event::HeartbeatDue,
    ]);
    assert_eq!(
        actions,
        vec![
            Action::SendDeregister,
            Action::Idle,
            Action::Idle,
            Action::StopAccepting,
            Action::Idle,
        ]
    );
}

#[test]
fn deregistering_is_tried_three_times_and_failing_it_gives_exit_code_one() {
    let (state, actions) = run(&[
        Event::Terminate,
        Event::DeregisterDone { ok: false },
        Event::DeregisterDone { ok: false },
        Event::DeregisterDone { ok: false },
        Event::ServerStopped { ok: true },
        Event::Drained { ok: true },
        Event::PauseOver,
    ]);
    assert_eq!(
        actions,
        vec![
            Action::SendDeregister,
            Action::SendDeregister,
            Action::SendDeregister,
            Action::StopAccepting,
            Action::Drain,
            Action::Pause { ms: 1000 },
            Action::Exit { code: 1 },
        ]
    );
    assert_eq!(state, Lifecycle { phase: Phase::Exited, failed: true });
}

#[test]
fn a_second_attempt_that_works_leaves_the_shutdown_clean() {
    let (state, actions) = run(&[
        Event::Terminate,
        Event::DeregisterDone { ok: false },
        Event::DeregisterDone { ok: true },
    ]);
    assert_eq!(
        actions,
        vec![Action::SendDeregister, Action::SendDeregister, Action::StopAccepting]
    );
    assert_eq!(state, Lifecycle { phase: Phase::AwaitingServer, failed: false });
}

#[test]
fn a_server_or_a_drain_that_breaks_gives_exit_code_one() {
    let (_, broken_server) = run(&[
        Event::Terminate,
        Event::DeregisterDone { ok: true },
        Event::ServerStopped { ok: false },
        Event::Drained { ok: true },
        Event::PauseOver,
    ]);
    assert_eq!(broken_server.last(), Some(&Action::Exit { code: 1 }));
    let (_, broken_drain) = run(&[
        Event::Terminate,
        Event::DeregisterDone { ok: true },
        Event::ServerStopped { ok: true },
        Event::Drained { ok: false },
        Event::PauseOver,
    ]);
    assert_eq!(broken_drain.last(), Some(&Action::Exit { code: 1 }));
}

#[test]
fn events_out_of_turn_change_nothing() {
    let (state, actions) = run(&[
        Event::DeregisterDone { ok: true },
        Event::ServerStopped { ok: false },
        Event::Drained { ok: false },
        Event::PauseOver,
    ]);
    assert_eq!(actions, vec![Action::Idle; 4]);
    assert_eq!(state, Lifecycle::new());
    let (after_exit, more) = run(&[
        Event::Terminate,
        Event::DeregisterDone { ok: true },
        Event::ServerStopped { ok: true },
        Event::Drained { ok: true },
        Event::PauseOver,
        Event::Terminate,
        Event::PauseOver,
    ]);
    assert_eq!(more[5], Action::Idle);
    assert_eq!(more[6], Action::Idle);
    assert_eq!(after_exit.phase, Phase::Exited);
}

#[test]
fn the_control_plane_is_asked_under_the_host_name() {
    let request = heartbeat(Some("pod-1"), Some("http://core:3001")).unwrap();
    assert_eq!(request.method, HttpMethod::Post);
    assert_eq!(request.uri, "http://core:3001/sqlite_workers/pod-1");
    let request = shutdown(Some("pod-1"), Some("http://core:3001")).unwrap();
    assert_eq!(request.method, HttpMethod::Delete);
    assert_eq!(request.uri, "http://core:3001/sqlite_workers/pod-1");
    let request = core_request(HttpMethod::Get, Some("h"), Some("c")).unwrap();
    assert_eq!(request.method, HttpMethod::Get);
    assert_eq!(request.uri, "c/sqlite_workers/h");
}

#[test]
fn the_host_name_is_missed_before_the_control_plane() {
    assert_eq!(heartbeat(None, None).err(), Some(LifecycleError::HostnameNotSet));
    assert_eq!(heartbeat(None, Some("c")).err(), Some(LifecycleError::HostnameNotSet));
    assert_eq!(shutdown(Some("h"), None).err(), Some(LifecycleError::CoreApiNotSet));
}

#[test]
fn only_status_200_is_a_success_of_the_control_plane() {
    assert_eq!(core_response(200), Ok(()));
    assert_eq!(core_response(404), Err(LifecycleError::CoreStatus(404)));
    assert_eq!(core_response(204), Err(LifecycleError::CoreStatus(204)));
}
