//! Runs of a call: the actions that a sequence of events draws from it, and
//! what holds of every run.

use crate::bridge::{
    spec_scheduler_of, spec_start, spec_step, spec_waiting_of, Action, Call, Event, Mode,
    Scheduler,
};
use crate::error::Error;
use crate::header::ASSURED_HEADERS;
use crate::request::{all_well_formed, builds, described, given, RequestSpec};
use crate::response::{spec_get_response, status_in, Reply, ReqwestResponse};
use crate::table::HeaderTable;
use vstd::prelude::*;

verus! {

/// The state reached from `call` by `events`, and the actions asked for on the way.
pub open spec fn run<T>(call: Call<T>, events: Seq<Event<T>>) -> (Call<T>, Seq<Action<T>>)
    decreases events.len(),
{
    if events.len() == 0 {
        (call, Seq::empty())
    } else {
        let before = run(call, events.drop_last());
        let last = spec_step(before.0, events.last());
        (last.0, before.1.push(last.1))
    }
}

/// The events of a call that runs undisturbed to its end, when its send
/// resolves as `sent`.
pub open spec fn script<T>(mode: Mode, sent: Result<Reply<T>, String>) -> Seq<Event<T>> {
    match mode {
        Mode::Blocking => seq![
            Event::SchedulerReady,
            Event::SendResolved(sent),
            Event::SchedulerReleased,
        ],
        _ => seq![Event::SchedulerReady, Event::SendResolved(sent)],
    }
}

/// The number of sends among `actions`.
pub open spec fn count_sends<T>(actions: Seq<Action<T>>) -> nat
    decreases actions.len(),
{
    if actions.len() == 0 {
        0
    } else {
        count_sends(actions.drop_last()) + if actions.last() is Send {
            1nat
        } else {
            0nat
        }
    }
}

/// One for a call that has yet to send, nothing for any other.
pub open spec fn sends_left<T>(call: Call<T>) -> nat {
    if call is Scheduling {
        1
    } else {
        0
    }
}

/// Some action before place `at` tears the scoped scheduler down.
pub open spec fn released_before<T>(actions: Seq<Action<T>>, at: int) -> bool {
    exists|earlier: int| 0 <= earlier < at && #[trigger] actions[earlier] is Release
}

/// No action touches a scoped scheduler.
pub open spec fn shared_only<T>(actions: Seq<Action<T>>) -> bool {
    forall|i: int|
        0 <= i < actions.len() ==> match #[trigger] actions[i] {
            Action::Acquire(scheduler) => scheduler == Scheduler::Shared,
            Action::Send { on, .. } => on == Scheduler::Shared,
            Action::Release => false,
            _ => true,
        }
}

/// What the caller is given at the end of an undisturbed run.
pub open spec fn delivered<T>(mode: Mode, request: RequestSpec, sent: Result<Reply<T>, String>) -> Action<
    T,
> {
    run(Call::Scheduling { mode, request }, script(mode, sent)).1.last()
}

/// A run asks for one action on each event.
pub proof fn lemma_run_len<T>(call: Call<T>, events: Seq<Event<T>>)
    ensures
        run(call, events).1.len() == events.len(),
    decreases events.len(),
{
    if events.len() > 0 {
        lemma_run_len(call, events.drop_last());
    }
}

/// A finished call asks for nothing more, whatever it is told.
pub proof fn lemma_finished_stays_silent<T>(events: Seq<Event<T>>)
    ensures
        run(Call::<T>::Finished, events).0 == Call::<T>::Finished,
        run(Call::<T>::Finished, events).1.len() == events.len(),
        forall|i: int|
            0 <= i < events.len() ==> #[trigger] run(Call::<T>::Finished, events).1[i]
                == Action::<T>::Nothing,
    decreases events.len(),
{
    if events.len() > 0 {
        lemma_finished_stays_silent(events.drop_last());
    }
}

/// A call with a malformed header does no work at all: it starts finished,
/// delivers `InvalidHeader`, and never asks for a scheduler or a send,
/// whatever events follow.
pub proof fn lemma_malformed_header_sends_nothing<T>(
    mode: Mode,
    url: Seq<char>,
    headers: Option<HeaderTable>,
    body: Option<Vec<u8>>,
    built: Result<RequestSpec, Error>,
    events: Seq<Event<T>>,
)
    requires
        builds(url, headers, body, built),
        !all_well_formed(given(headers)),
    ensures
        spec_start::<T>(mode, built).0 == Call::<T>::Finished,
        spec_start::<T>(mode, built).1 matches Action::Deliver(Err(Error::InvalidHeader(_))),
        forall|i: int|
            0 <= i < events.len() ==> #[trigger] run(spec_start::<T>(mode, built).0, events).1[i]
                == Action::<T>::Nothing,
{
    lemma_finished_stays_silent(events);
}

/// A call sends at most once: a run from a call that has yet to send holds
/// at most one send, and a run from any other call holds none.
pub proof fn lemma_at_most_one_send<T>(call: Call<T>, events: Seq<Event<T>>)
    ensures
        count_sends(run(call, events).1) + sends_left(run(call, events).0) <= sends_left(call),
    decreases events.len(),
{
    if events.len() > 0 {
        let front = events.drop_last();
        lemma_at_most_one_send(call, front);
        let before = run(call, front);
        let last = spec_step(before.0, events.last());
        assert(run(call, events).1.drop_last() =~= before.1);
        assert(run(call, events).1.last() == last.1);
    }
}

/// What holds after every run of a blocking call: a result is delivered only
/// after the scoped scheduler was torn down.
spec fn blocking_in_order<T>(reached: (Call<T>, Seq<Action<T>>)) -> bool {
    &&& forall|i: int|
        0 <= i < reached.1.len() && #[trigger] reached.1[i] is Deliver ==> released_before(
            reached.1,
            i,
        )
    &&& reached.0 matches Call::Scheduling { mode, .. } ==> mode == Mode::Blocking
    &&& reached.0 matches Call::Sending { mode } ==> mode == Mode::Blocking
    &&& reached.0 is Releasing ==> released_before(reached.1, reached.1.len() as int)
}

proof fn lemma_blocking_in_order<T>(request: RequestSpec, events: Seq<Event<T>>)
    ensures
        blocking_in_order(run(Call::<T>::Scheduling { mode: Mode::Blocking, request }, events)),
    decreases events.len(),
{
    let call = Call::<T>::Scheduling { mode: Mode::Blocking, request };
    if events.len() > 0 {
        let front = events.drop_last();
        lemma_blocking_in_order(request, front);
        let before = run(call, front);
        let after = run(call, events);
        let last = spec_step(before.0, events.last());
        let n = before.1.len() as int;
        assert(after.1 == before.1.push(last.1));
        assert forall|i: int| 0 <= i < after.1.len() && #[trigger] after.1[i] is Deliver implies released_before(
            after.1,
            i,
        ) by {
            if i < n {
                assert(before.1[i] is Deliver);
                let earlier = choose|earlier: int|
                    0 <= earlier < i && #[trigger] before.1[earlier] is Release;
                assert(after.1[earlier] is Release);
            } else {
                assert(before.0 is Releasing);
                let earlier = choose|earlier: int|
                    0 <= earlier < n && #[trigger] before.1[earlier] is Release;
                assert(after.1[earlier] is Release);
            }
        }
        if after.0 is Releasing {
            if before.0 is Releasing {
                let earlier = choose|earlier: int|
                    0 <= earlier < n && #[trigger] before.1[earlier] is Release;
                assert(after.1[earlier] is Release);
            } else {
                assert(after.1[n] is Release);
            }
        }
    }
}

/// In blocking mode the scoped scheduler is torn down before the caller is
/// given anything, whether the send succeeded or failed and whatever events
/// came in between.
pub proof fn lemma_scoped_scheduler_is_released<T>(
    request: RequestSpec,
    events: Seq<Event<T>>,
    at: int,
)
    requires
        0 <= at < events.len(),
        run(Call::<T>::Scheduling { mode: Mode::Blocking, request }, events).1[at] is Deliver,
    ensures
        released_before(
            run(Call::<T>::Scheduling { mode: Mode::Blocking, request }, events).1,
            at,
        ),
{
    lemma_run_len(Call::<T>::Scheduling { mode: Mode::Blocking, request }, events);
    lemma_blocking_in_order(request, events);
}

/// What holds after every run of a call on the shared scheduler.
spec fn shared_in_order<T>(reached: (Call<T>, Seq<Action<T>>)) -> bool {
    &&& shared_only(reached.1)
    &&& reached.0 matches Call::Scheduling { mode, .. } ==> mode != Mode::Blocking
    &&& reached.0 matches Call::Sending { mode } ==> mode != Mode::Blocking
    &&& !(reached.0 is Releasing)
}

proof fn lemma_shared_in_order<T>(mode: Mode, request: RequestSpec, events: Seq<Event<T>>)
    requires
        mode != Mode::Blocking,
    ensures
        shared_in_order(run(Call::<T>::Scheduling { mode, request }, events)),
    decreases events.len(),
{
    let call = Call::<T>::Scheduling { mode, request };
    if events.len() > 0 {
        let front = events.drop_last();
        lemma_shared_in_order(mode, request, front);
        let before = run(call, front);
        let after = run(call, events);
        let last = spec_step(before.0, events.last());
        assert(after.1 == before.1.push(last.1));
        assert forall|i: int| 0 <= i < after.1.len() implies match #[trigger] after.1[i] {
            Action::Acquire(scheduler) => scheduler == Scheduler::Shared,
            Action::Send { on, .. } => on == Scheduler::Shared,
            Action::Release => false,
            _ => true,
        } by {
            if i < before.1.len() {
                assert(after.1[i] == before.1[i]);
            }
        }
    }
}

/// A call that is not blocking never makes or tears down a scheduler of its
/// own: it asks only for the shared one, whatever events come.
pub proof fn lemma_shared_scheduler_is_kept<T>(
    mode: Mode,
    request: RequestSpec,
    events: Seq<Event<T>>,
)
    requires
        mode != Mode::Blocking,
    ensures
        spec_start::<T>(mode, Ok(request)).1 == Action::<T>::Acquire(Scheduler::Shared),
        shared_only(run(spec_start::<T>(mode, Ok(request)).0, events).1),
{
    lemma_shared_in_order(mode, request, events);
}

/// An undisturbed run, action by action: the one send of the request on the
/// scheduler of the mode, the tear-down in blocking mode, and the delivery of
/// what the send came to.
pub proof fn lemma_undisturbed_run<T>(mode: Mode, request: RequestSpec, sent: Result<Reply<T>, String>)
    ensures
        run(Call::Scheduling { mode, request }, script(mode, sent)).0 == Call::<T>::Finished,
        run(Call::Scheduling { mode, request }, script(mode, sent)).1 == match mode {
            Mode::Blocking => seq![
                Action::Send {
                    request,
                    on: spec_scheduler_of(mode),
                    waiting: spec_waiting_of(mode),
                },
                Action::Release,
                Action::Deliver(spec_get_response(sent)),
            ],
            _ => seq![
                Action::Send {
                    request,
                    on: spec_scheduler_of(mode),
                    waiting: spec_waiting_of(mode),
                },
                Action::Deliver(spec_get_response(sent)),
            ],
        },
        delivered(mode, request, sent) == Action::Deliver(spec_get_response(sent)),
{
    let call = Call::<T>::Scheduling { mode, request };
    let events = script(mode, sent);
    let one = events.take(1);
    let two = events.take(2);
    assert(one.drop_last() =~= Seq::<Event<T>>::empty());
    assert(run(call, one.drop_last()) == (call, Seq::<Action<T>>::empty()));
    assert(one.last() == Event::<T>::SchedulerReady);
    let first = Action::<T>::Send {
        request,
        on: spec_scheduler_of(mode),
        waiting: spec_waiting_of(mode),
    };
    assert(run(call, one).1 =~= seq![first]);
    assert(two.drop_last() =~= one);
    assert(two.last() == Event::SendResolved(sent));
    match mode {
        Mode::Blocking => {
            assert(run(call, two).1 =~= seq![first, Action::Release]);
            assert(events.drop_last() =~= two);
            assert(events.last() == Event::<T>::SchedulerReleased);
            assert(run(call, events).1 =~= seq![
                first,
                Action::Release,
                Action::Deliver(spec_get_response(sent)),
            ]);
        },
        _ => {
            assert(two =~= events);
            assert(run(call, events).1 =~= seq![first, Action::Deliver(spec_get_response(sent))]);
        },
    }
}

/// A call whose headers are all well formed, and no more than
/// `ASSURED_HEADERS`, is never ended by its headers: its request is built as
/// the input describes, it starts by asking for the scheduler of its mode, and
/// when it runs undisturbed it sends that request exactly once.
pub proof fn lemma_well_formed_call_sends_once<T>(
    mode: Mode,
    url: Seq<char>,
    headers: Option<HeaderTable>,
    body: Option<Vec<u8>>,
    built: Result<RequestSpec, Error>,
    sent: Result<Reply<T>, String>,
)
    requires
        builds(url, headers, body, built),
        all_well_formed(given(headers)),
        given(headers).len() <= ASSURED_HEADERS,
    ensures
        built matches Ok(request) && request@ == described(url, headers, body) && spec_start::<T>(
            mode,
            built,
        ) == (Call::<T>::Scheduling { mode, request }, Action::<T>::Acquire(spec_scheduler_of(mode)))
            && run(spec_start::<T>(mode, built).0, script(mode, sent)).1[0] == (Action::<T>::Send {
            request,
            on: spec_scheduler_of(mode),
            waiting: spec_waiting_of(mode),
        }) && count_sends(run(spec_start::<T>(mode, built).0, script(mode, sent)).1) == 1,
{
    let request = built->Ok_0;
    let call = Call::<T>::Scheduling { mode, request };
    let actions = run(call, script(mode, sent)).1;
    lemma_undisturbed_run(mode, request, sent);
    lemma_at_most_one_send(call, script(mode, sent));
    lemma_count_sends_of_one(actions, 0);
}

/// A send among the actions counts.
proof fn lemma_count_sends_of_one<T>(actions: Seq<Action<T>>, at: int)
    requires
        0 <= at < actions.len(),
        actions[at] is Send,
    ensures
        count_sends(actions) >= 1,
    decreases actions.len(),
{
    if at < actions.len() - 1 {
        lemma_count_sends_of_one(actions.drop_last(), at);
    }
}

/// The caller observes the same in every mode: when the send ends in the
/// same way, a blocking call, a call that hands out an awaitable and a bridged
/// call deliver the same result, and so the same status, address and headers.
pub proof fn lemma_modes_agree<T>(
    blocking: RequestSpec,
    awaited: RequestSpec,
    bridged: RequestSpec,
    sent: Result<Reply<T>, String>,
)
    ensures
        delivered(Mode::Blocking, blocking, sent) == delivered(Mode::NonBlocking, awaited, sent),
        delivered(Mode::BridgedSync, bridged, sent) == delivered(Mode::NonBlocking, awaited, sent),
{
    lemma_undisturbed_run(Mode::Blocking, blocking, sent);
    lemma_undisturbed_run(Mode::NonBlocking, awaited, sent);
    lemma_undisturbed_run(Mode::BridgedSync, bridged, sent);
}

/// A send that succeeds delivers a handle that holds the transport's reply,
/// so that its status is the status the transport received.
pub proof fn lemma_delivered_handle<T>(mode: Mode, request: RequestSpec, reply: Reply<T>)
    ensures
        delivered(mode, request, Ok::<_, String>(reply)) == Action::Deliver(
            Ok(ReqwestResponse::holding(reply)),
        ),
        ReqwestResponse::holding(reply).held() == Some(reply),
        status_in(ReqwestResponse::holding(reply).held()) == Ok::<u16, Error>(reply.status),
{
    lemma_undisturbed_run(mode, request, Ok::<_, String>(reply));
    ReqwestResponse::lemma_holding(reply, ReqwestResponse::holding(reply));
}

/// A send that fails delivers `RequestFailed` with the transport's
/// diagnostic, and no handle.
pub proof fn lemma_failed_send_delivers_no_handle<T>(
    mode: Mode,
    request: RequestSpec,
    diagnostic: String,
)
    ensures
        delivered::<T>(mode, request, Err(diagnostic)) == Action::<T>::Deliver(
            Err(Error::RequestFailed(diagnostic)),
        ),
{
    lemma_undisturbed_run::<T>(mode, request, Err(diagnostic));
}

} // verus!
