//! The life of a worker: heartbeats while it runs, and on termination an
//! orderly end. The worker first tells the control plane that it leaves,
//! then stops accepting requests, waits for the pending ones, drains the
//! registry, pauses for the logs, and exits.
//!
//! The controller decides; the process around it sends the requests, waits,
//! and reports each outcome as the next event.

use crate::sqlite_workers::sqlite_workers::{HttpMethod, WorkerRequest};
use vstd::prelude::*;
use vstd::string::*;

verus! {

/// The pause between two heartbeats, in milliseconds.
pub const HEARTBEAT_INTERVAL_MS: u64 = 1024;

/// How long one call to the control plane may take, in milliseconds.
pub const CORE_REQUEST_TIMEOUT_MS: u64 = 2000;

/// How often the worker tries to tell the control plane that it leaves.
pub const DEREGISTER_ATTEMPTS: u8 = 3;

/// The pause before the process exits, in milliseconds, for the logs.
pub const EXIT_PAUSE_MS: u64 = 1000;

#[derive(Clone, Copy, PartialEq, Eq, Structural, Debug)]
pub enum Phase {
    /// Serving, and heartbeating.
    Running,
    /// Telling the control plane that the worker leaves; so many attempts
    /// are left after the one under way.
    Deregistering { attempts_left: u8 },
    /// No new requests are accepted; pending responses are being sent.
    AwaitingServer,
    /// The registry drains.
    Draining,
    /// Pausing for the logs.
    Pausing,
    Exited,
}

#[derive(Clone, Copy, PartialEq, Eq, Structural, Debug)]
pub enum Event {
    /// The heartbeat timer fired.
    HeartbeatDue,
    /// A heartbeat was answered, or failed.
    HeartbeatDone { ok: bool },
    /// The process was asked to terminate.
    Terminate,
    /// The attempt to deregister was answered, or failed.
    DeregisterDone { ok: bool },
    /// The server has sent its pending responses, or broke down.
    ServerStopped { ok: bool },
    /// The registry has drained, or could not.
    Drained { ok: bool },
    /// The pause is over.
    PauseOver,
}

#[derive(Clone, Copy, PartialEq, Eq, Structural, Debug)]
pub enum Action {
    /// Nothing to do.
    Idle,
    /// Send a heartbeat to the control plane.
    SendHeartbeat,
    /// Set the heartbeat timer to this many milliseconds.
    Sleep { ms: u64 },
    /// Ask the control plane to take the worker off its list.
    SendDeregister,
    /// Stop accepting requests and let the pending ones finish.
    StopAccepting,
    /// Drain the registry.
    Drain,
    /// Pause for this many milliseconds.
    Pause { ms: u64 },
    /// Exit with this code.
    Exit { code: u8 },
}

/// The controller: where the worker is in its life, and whether something
/// went wrong on the way out.
#[derive(Clone, Copy, PartialEq, Eq, Structural, Debug)]
pub struct Lifecycle {
    pub phase: Phase,
    pub failed: bool,
}

/// The code with which the process exits: 0 after a clean end, 1 otherwise.
pub open spec fn exit_code(failed: bool) -> u8 {
    if failed {
        1
    } else {
        0
    }
}

/// What the controller does on an event, and what it asks for. An event
/// that does not belong to the phase changes nothing and asks for nothing.
pub open spec fn lifecycle_step(state: Lifecycle, event: Event) -> (Lifecycle, Action) {
    match (state.phase, event) {
        (Phase::Running, Event::HeartbeatDue) => (state, Action::SendHeartbeat),
        (Phase::Running, Event::HeartbeatDone { ok }) => (
            state,
            Action::Sleep { ms: HEARTBEAT_INTERVAL_MS },
        ),
        (Phase::Running, Event::Terminate) => (
            Lifecycle {
                phase: Phase::Deregistering { attempts_left: (DEREGISTER_ATTEMPTS - 1) as u8 },
                failed: state.failed,
            },
            Action::SendDeregister,
        ),
        (Phase::Deregistering { attempts_left }, Event::DeregisterDone { ok }) => if ok {
            (Lifecycle { phase: Phase::AwaitingServer, failed: state.failed }, Action::StopAccepting)
        } else if attempts_left > 0 {
            (
                Lifecycle {
                    phase: Phase::Deregistering { attempts_left: (attempts_left - 1) as u8 },
                    failed: state.failed,
                },
                Action::SendDeregister,
            )
        } else {
            (Lifecycle { phase: Phase::AwaitingServer, failed: true }, Action::StopAccepting)
        },
        (Phase::AwaitingServer, Event::ServerStopped { ok }) => (
            Lifecycle { phase: Phase::Draining, failed: state.failed || !ok },
            Action::Drain,
        ),
        (Phase::Draining, Event::Drained { ok }) => (
            Lifecycle { phase: Phase::Pausing, failed: state.failed || !ok },
            Action::Pause { ms: EXIT_PAUSE_MS },
        ),
        (Phase::Pausing, Event::PauseOver) => (
            Lifecycle { phase: Phase::Exited, failed: state.failed },
            Action::Exit { code: exit_code(state.failed) },
        ),
        _ => (state, Action::Idle),
    }
}

impl Lifecycle {
    /// A worker that has just started.
    pub fn new() -> (state: Lifecycle)
        ensures
            state == (Lifecycle { phase: Phase::Running, failed: false }),
    {
        Lifecycle { phase: Phase::Running, failed: false }
    }

    /// Whether the worker is on its way out.
    pub fn is_shutting_down(&self) -> (leaving: bool)
        ensures
            leaving == (self.phase != Phase::Running),
    {
        match self.phase {
            Phase::Running => false,
            _ => true,
        }
    }

    /// Takes an event and says what to do.
    pub fn step(&mut self, event: Event) -> (action: Action)
        ensures
            (*final(self), action) == lifecycle_step(*old(self), event),
    {
        match (self.phase, event) {
            (Phase::Running, Event::HeartbeatDue) => Action::SendHeartbeat,
            (Phase::Running, Event::HeartbeatDone { ok }) => Action::Sleep {
                ms: HEARTBEAT_INTERVAL_MS,
            },
            (Phase::Running, Event::Terminate) => {
                self.phase = Phase::Deregistering { attempts_left: DEREGISTER_ATTEMPTS - 1 };
                Action::SendDeregister
            },
            (Phase::Deregistering { attempts_left }, Event::DeregisterDone { ok }) => {
                if ok {
                    self.phase = Phase::AwaitingServer;
                    Action::StopAccepting
                } else if attempts_left > 0 {
                    self.phase = Phase::Deregistering { attempts_left: attempts_left - 1 };
                    Action::SendDeregister
                } else {
                    self.phase = Phase::AwaitingServer;
                    self.failed = true;
                    Action::StopAccepting
                }
            },
            (Phase::AwaitingServer, Event::ServerStopped { ok }) => {
                self.phase = Phase::Draining;
                self.failed = self.failed || !ok;
                Action::Drain
            },
            (Phase::Draining, Event::Drained { ok }) => {
                self.phase = Phase::Pausing;
                self.failed = self.failed || !ok;
                Action::Pause { ms: EXIT_PAUSE_MS }
            },
            (Phase::Pausing, Event::PauseOver) => {
                self.phase = Phase::Exited;
                Action::Exit {
                    code: if self.failed {
                        1
                    } else {
                        0
                    },
                }
            },
            _ => Action::Idle,
        }
    }
}

/// The controller after a sequence of events, with what it asked for on
/// each.
pub open spec fn run_events(state: Lifecycle, events: Seq<Event>) -> (Lifecycle, Seq<Action>)
    decreases events.len(),
{
    if events.len() == 0 {
        (state, Seq::empty())
    } else {
        let (mid, actions) = run_events(state, events.drop_last());
        let (after, action) = lifecycle_step(mid, events.last());
        (after, actions.push(action))
    }
}

/// A worker that has just started.
pub open spec fn started() -> Lifecycle {
    Lifecycle { phase: Phase::Running, failed: false }
}

proof fn lemma_run_events_len(state: Lifecycle, events: Seq<Event>)
    ensures
        run_events(state, events).1.len() == events.len(),
    decreases events.len(),
{
    if events.len() > 0 {
        lemma_run_events_len(state, events.drop_last());
    }
}

/// What was asked for on the first events does not depend on the later ones.
proof fn lemma_run_events_prefix(state: Lifecycle, events: Seq<Event>, n: int)
    requires
        0 <= n <= events.len(),
    ensures
        run_events(state, events.take(n)).1 == run_events(state, events).1.take(n),
    decreases events.len(),
{
    lemma_run_events_len(state, events);
    lemma_run_events_len(state, events.take(n));
    if n == events.len() {
        assert(events.take(n) =~= events);
        assert(run_events(state, events).1.take(n) =~= run_events(state, events).1);
    } else {
        let shorter = events.drop_last();
        lemma_run_events_prefix(state, shorter, n);
        lemma_run_events_len(state, shorter);
        assert(shorter.take(n) =~= events.take(n));
        assert(run_events(state, shorter).1.take(n) =~= run_events(state, events).1.take(n));
    }
}

/// A worker that is no longer running has asked to be deregistered.
proof fn lemma_leaving_has_deregistered(events: Seq<Event>)
    ensures
        run_events(started(), events).0.phase != Phase::Running ==> run_events(
            started(),
            events,
        ).1.contains(Action::SendDeregister),
    decreases events.len(),
{
    if events.len() > 0 {
        let shorter = events.drop_last();
        lemma_leaving_has_deregistered(shorter);
        lemma_run_events_len(started(), shorter);
        let (mid, actions) = run_events(started(), shorter);
        let (after, action) = lifecycle_step(mid, events.last());
        let all = actions.push(action);
        if after.phase != Phase::Running {
            if mid.phase != Phase::Running {
                let j = choose|j: int| 0 <= j < actions.len() && actions[j] == Action::SendDeregister;
                assert(all[j] == Action::SendDeregister);
            } else {
                assert(action == Action::SendDeregister);
                assert(all[actions.len() as int] == Action::SendDeregister);
            }
        }
    }
}

/// From its start, whatever events arrive in whatever order, the worker
/// stops accepting requests only after it has asked the control plane to
/// deregister it.
pub proof fn lemma_deregisters_before_it_stops_accepting(events: Seq<Event>, k: int)
    requires
        0 <= k < events.len(),
        run_events(started(), events).1[k] == Action::StopAccepting,
    ensures
        run_events(started(), events).1.len() == events.len(),
        exists|j: int| 0 <= j < k && run_events(started(), events).1[j] == Action::SendDeregister,
{
    lemma_run_events_len(started(), events);
    let all = run_events(started(), events).1;
    let upto = events.take(k + 1);
    lemma_run_events_prefix(started(), events, k + 1);
    lemma_run_events_len(started(), upto);
    let before = upto.drop_last();
    let (mid, actions) = run_events(started(), before);
    lemma_run_events_len(started(), before);
    assert(run_events(started(), upto).1.last() == all[k]);
    assert(lifecycle_step(mid, upto.last()).1 == Action::StopAccepting);
    assert(mid.phase != Phase::Running);
    lemma_leaving_has_deregistered(before);
    let j = choose|j: int| 0 <= j < actions.len() && actions[j] == Action::SendDeregister;
    assert(run_events(started(), upto).1[j] == actions[j]);
    assert(all.take(k + 1)[j] == all[j]);
}

/// Once the worker is on its way out, no event makes it send a heartbeat.
pub proof fn lemma_no_heartbeat_while_leaving(state: Lifecycle, event: Event)
    requires
        state.phase != Phase::Running,
    ensures
        lifecycle_step(state, event).1 != Action::SendHeartbeat,
        lifecycle_step(state, event).0.phase != Phase::Running,
{
}

/// Why a call to the control plane cannot be made, or failed.
#[derive(Clone, Copy, PartialEq, Eq, Structural, Debug)]
pub enum LifecycleError {
    HostnameNotSet,
    CoreApiNotSet,
    /// The control plane answered with this status.
    CoreStatus(u16),
}

/// The address under which the control plane knows a worker.
pub open spec fn core_uri(core_api: Seq<char>, hostname: Seq<char>) -> Seq<char> {
    core_api + "/sqlite_workers/"@ + hostname
}

/// The request to the control plane about this worker, or why it cannot be
/// made: the host name is looked at before the address of the control
/// plane.
pub open spec fn core_request_spec(
    method: HttpMethod,
    hostname: Option<Seq<char>>,
    core_api: Option<Seq<char>>,
) -> Result<(HttpMethod, Seq<char>), LifecycleError> {
    if hostname is None {
        Err(LifecycleError::HostnameNotSet)
    } else if core_api is None {
        Err(LifecycleError::CoreApiNotSet)
    } else {
        Ok((method, core_uri(core_api->Some_0, hostname->Some_0)))
    }
}

pub open spec fn str_option_view(text: Option<&str>) -> Option<Seq<char>> {
    match text {
        Some(t) => Some(t@),
        None => None,
    }
}

pub open spec fn core_request_view(result: Result<WorkerRequest, LifecycleError>) -> Result<
    (HttpMethod, Seq<char>),
    LifecycleError,
> {
    match result {
        Ok(request) => Ok((request.method, request.uri@)),
        Err(e) => Err(e),
    }
}

/// The request to the control plane about this worker.
pub fn core_request(method: HttpMethod, hostname: Option<&str>, core_api: Option<&str>) -> (result:
    Result<WorkerRequest, LifecycleError>)
    ensures
        core_request_view(result) == core_request_spec(
            method,
            str_option_view(hostname),
            str_option_view(core_api),
        ),
{
    let hostname = match hostname {
        Some(hostname) => hostname,
        None => {
            return Err(LifecycleError::HostnameNotSet);
        },
    };
    let core_api = match core_api {
        Some(core_api) => core_api,
        None => {
            return Err(LifecycleError::CoreApiNotSet);
        },
    };
    let uri = core_api.to_owned().concat("/sqlite_workers/").concat(hostname);
    Ok(WorkerRequest { method, uri })
}

/// The heartbeat: it registers the worker, or refreshes its entry.
pub fn heartbeat(hostname: Option<&str>, core_api: Option<&str>) -> (result: Result<
    WorkerRequest,
    LifecycleError,
>)
    ensures
        core_request_view(result) == core_request_spec(
            HttpMethod::Post,
            str_option_view(hostname),
            str_option_view(core_api),
        ),
{
    core_request(HttpMethod::Post, hostname, core_api)
}

/// The request that takes the worker off the control plane's list.
pub fn shutdown(hostname: Option<&str>, core_api: Option<&str>) -> (result: Result<
    WorkerRequest,
    LifecycleError,
>)
    ensures
        core_request_view(result) == core_request_spec(
            HttpMethod::Delete,
            str_option_view(hostname),
            str_option_view(core_api),
        ),
{
    core_request(HttpMethod::Delete, hostname, core_api)
}

/// What the control plane's answer means: status 200 is success.
pub fn core_response(status: u16) -> (result: Result<(), LifecycleError>)
    ensures
        result == if status == 200 {
            Ok::<(), LifecycleError>(())
        } else {
            Err::<(), LifecycleError>(LifecycleError::CoreStatus(status))
        },
{
    if status == 200 {
        Ok(())
    } else {
        Err(LifecycleError::CoreStatus(status))
    }
}

} // verus!
