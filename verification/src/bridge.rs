//! The execution bridge: which scheduler runs the send of a call, how the
//! caller waits for it, and what the caller is given in the end.
//!
//! A call is a small state machine. The driver performs the action it is
//! handed, reports what happened as an event, and is handed the next action.
//! The machine itself does nothing to the outside world.

use crate::error::Error;
use crate::request::{builds, setup_request, RequestSpec};
use crate::response::{get_response, spec_get_response, Reply, ReqwestResponse};
use crate::table::HeaderTable;
use vstd::prelude::*;

verus! {

/// How a call is run.
#[derive(Debug, Clone, Copy, PartialEq, Eq, Structural)]
pub enum Mode {
    /// The caller is synchronous and waits on a scheduler of the call's own.
    Blocking,
    /// The caller is given an awaitable bound to the shared scheduler.
    NonBlocking,
    /// The caller is synchronous and the host drives the shared scheduler's
    /// awaitable to completion.
    BridgedSync,
}

/// The scheduler that runs a send.
#[derive(Debug, Clone, Copy, PartialEq, Eq, Structural)]
pub enum Scheduler {
    /// Single-threaded, made for one call and torn down when the call ends.
    Scoped,
    /// One for the whole process, made on first use and never torn down.
    Shared,
}

/// How the caller waits for a send.
#[derive(Debug, Clone, Copy, PartialEq, Eq, Structural)]
pub enum Waiting {
    /// The calling thread gives up the host's lock and blocks until the send
    /// has resolved, then takes the lock again.
    Blocked,
    /// The caller is given the awaitable at once and awaits it itself.
    Awaited,
    /// The awaitable is given to the host's run-to-completion primitive.
    Driven,
}

/// What the driver reports to a call.
#[derive(Debug)]
pub enum Event<T> {
    /// The scheduler asked for is there.
    SchedulerReady,
    /// The send has resolved: with the transport's reply, or with its diagnostic.
    SendResolved(Result<Reply<T>, String>),
    /// The scoped scheduler has been torn down.
    SchedulerReleased,
}

/// What a call asks of the driver.
#[derive(Debug)]
pub enum Action<T> {
    /// Make the scoped scheduler, or take the shared one, making it if this is
    /// its first use.
    Acquire(Scheduler),
    /// Run the send of `request` on the scheduler `on`, and wait as `waiting` says.
    Send { request: RequestSpec, on: Scheduler, waiting: Waiting },
    /// Tear down the scoped scheduler.
    Release,
    /// Give the caller this result: return or raise it, resolve or reject the
    /// awaitable with it.
    Deliver(Result<ReqwestResponse<T>, Error>),
    /// The event does not belong to the state of the call; nothing is to be done.
    Nothing,
}

/// The state of one call.
#[derive(Debug)]
pub enum Call<T> {
    /// The request is built and the scheduler is asked for.
    Scheduling { mode: Mode, request: RequestSpec },
    /// The send is under way.
    Sending { mode: Mode },
    /// The send has resolved and the scoped scheduler is being torn down; the
    /// result waits to be delivered.
    Releasing { outcome: Result<ReqwestResponse<T>, Error> },
    /// The result has been delivered.
    Finished,
}

/// The scheduler on which a call of this mode sends.
pub open spec fn spec_scheduler_of(mode: Mode) -> Scheduler {
    match mode {
        Mode::Blocking => Scheduler::Scoped,
        Mode::NonBlocking => Scheduler::Shared,
        Mode::BridgedSync => Scheduler::Shared,
    }
}

/// How the caller of a call of this mode waits.
pub open spec fn spec_waiting_of(mode: Mode) -> Waiting {
    match mode {
        Mode::Blocking => Waiting::Blocked,
        Mode::NonBlocking => Waiting::Awaited,
        Mode::BridgedSync => Waiting::Driven,
    }
}

/// The mode of a synchronous call: bridged where the host can drive an
/// awaitable, blocking otherwise.
pub open spec fn spec_sync_mode(bridged: bool) -> Mode {
    if bridged {
        Mode::BridgedSync
    } else {
        Mode::Blocking
    }
}

/// The first state and action of a call, given how building its request ended.
pub open spec fn spec_start<T>(mode: Mode, built: Result<RequestSpec, Error>) -> (
    Call<T>,
    Action<T>,
) {
    match built {
        Ok(request) => (Call::Scheduling { mode, request }, Action::Acquire(spec_scheduler_of(mode))),
        Err(error) => (Call::Finished, Action::Deliver(Err(error))),
    }
}

/// The state that follows `call` on `event`, and the action asked for.
pub open spec fn spec_step<T>(call: Call<T>, event: Event<T>) -> (Call<T>, Action<T>) {
    match (call, event) {
        (Call::Scheduling { mode, request }, Event::SchedulerReady) => (
            Call::Sending { mode },
            Action::Send { request, on: spec_scheduler_of(mode), waiting: spec_waiting_of(mode) },
        ),
        (Call::Sending { mode }, Event::SendResolved(sent)) => match mode {
            Mode::Blocking => (
                Call::Releasing { outcome: spec_get_response(sent) },
                Action::Release,
            ),
            _ => (Call::Finished, Action::Deliver(spec_get_response(sent))),
        },
        (Call::Releasing { outcome }, Event::SchedulerReleased) => (
            Call::Finished,
            Action::Deliver(outcome),
        ),
        _ => (call, Action::Nothing),
    }
}

#[verifier::when_used_as_spec(spec_scheduler_of)]
pub fn scheduler_of(mode: Mode) -> (scheduler: Scheduler)
    ensures
        scheduler == spec_scheduler_of(mode),
{
    match mode {
        Mode::Blocking => Scheduler::Scoped,
        Mode::NonBlocking => Scheduler::Shared,
        Mode::BridgedSync => Scheduler::Shared,
    }
}

#[verifier::when_used_as_spec(spec_waiting_of)]
pub fn waiting_of(mode: Mode) -> (waiting: Waiting)
    ensures
        waiting == spec_waiting_of(mode),
{
    match mode {
        Mode::Blocking => Waiting::Blocked,
        Mode::NonBlocking => Waiting::Awaited,
        Mode::BridgedSync => Waiting::Driven,
    }
}

/// Starts a call whose request was built, or could not be built, as `built` says.
pub fn start<T>(mode: Mode, built: Result<RequestSpec, Error>) -> (started: (Call<T>, Action<T>))
    ensures
        started == spec_start::<T>(mode, built),
{
    match built {
        Ok(request) => (Call::Scheduling { mode, request }, Action::Acquire(scheduler_of(mode))),
        Err(error) => (Call::Finished, Action::Deliver(Err(error))),
    }
}

/// Starts a synchronous GET: builds the request and asks for the scheduler,
/// or delivers `InvalidHeader` at once.
pub fn http_get<T>(
    url: String,
    headers: Option<HeaderTable>,
    body: Option<Vec<u8>>,
    bridged: bool,
) -> (started: (Call<T>, Action<T>))
    ensures
        exists|built: Result<RequestSpec, Error>|
            builds(url@, headers, body, built) && started == #[trigger] spec_start::<T>(
                spec_sync_mode(bridged),
                built,
            ),
{
    let mode = if bridged {
        Mode::BridgedSync
    } else {
        Mode::Blocking
    };
    let built = setup_request(url, headers, body);
    start(mode, built)
}

/// Starts a GET whose caller is given an awaitable: builds the request and
/// asks for the shared scheduler, or delivers `InvalidHeader` at once.
pub fn http_get_async<T>(url: String, headers: Option<HeaderTable>, body: Option<Vec<u8>>) -> (started:
    (Call<T>, Action<T>))
    ensures
        exists|built: Result<RequestSpec, Error>|
            builds(url@, headers, body, built) && started == #[trigger] spec_start::<T>(
                Mode::NonBlocking,
                built,
            ),
{
    let built = setup_request(url, headers, body);
    start(Mode::NonBlocking, built)
}

impl<T> Call<T> {
    /// Whether the call has delivered its result.
    pub fn is_finished(&self) -> (finished: bool)
        ensures
            finished == (*self is Finished),
    {
        match self {
            Call::Finished => true,
            _ => false,
        }
    }

    /// Takes the call from its state to the next on `event`, and says what
    /// the driver is to do.
    pub fn step(self, event: Event<T>) -> (next: (Call<T>, Action<T>))
        ensures
            next == spec_step(self, event),
    {
        match self {
            Call::Scheduling { mode, request } => match event {
                Event::SchedulerReady => (
                    Call::Sending { mode },
                    Action::Send { request, on: scheduler_of(mode), waiting: waiting_of(mode) },
                ),
                _ => (Call::Scheduling { mode, request }, Action::Nothing),
            },
            Call::Sending { mode } => match event {
                Event::SendResolved(sent) => {
                    let outcome = get_response(sent);
                    match mode {
                        Mode::Blocking => (Call::Releasing { outcome }, Action::Release),
                        _ => (Call::Finished, Action::Deliver(outcome)),
                    }
                },
                _ => (Call::Sending { mode }, Action::Nothing),
            },
            Call::Releasing { outcome } => match event {
                Event::SchedulerReleased => (Call::Finished, Action::Deliver(outcome)),
                _ => (Call::Releasing { outcome }, Action::Nothing),
            },
            Call::Finished => (Call::Finished, Action::Nothing),
        }
    }
}

} // verus!
