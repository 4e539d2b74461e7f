//! What a flush and a shutdown of a channel's writing end do, step by step.

use vstd::prelude::*;

use crate::host::{Calls, ChannelCall, PossibleCalls};
use crate::outcome::{handed_back, reported, succeeded, LockAttempt, Report, TaskPoll};
use crate::queue::{empty_queue, queue_step, QueueEvent, QueueReply, QueueState};
use crate::queue_run::{obeys, reply_from, state_from};

verus! {

/// State of a writing end: its queue, what was called on its channel, and the close request
/// under way.
#[verifier::ext_equal]
#[verifier::reject_recursive_types(R)]
#[verifier::reject_recursive_types(F)]
#[verifier::reject_recursive_types(D)]
pub struct WriterState<R, F, D> {
    pub queue: QueueState<F>,
    /// The calls made on the channel, in order.
    pub calls: Calls<R, F, D>,
    /// The calls that can be made on it, each with what it can give.
    pub possible: PossibleCalls<R, F, D>,
    pub close: Option<D>,
}

/// The state of a writing end that nothing has happened to, on a channel that these calls
/// were made on before.
pub open spec fn new_writer<R, F, D>(
    calls: Calls<R, F, D>,
    possible: PossibleCalls<R, F, D>,
) -> WriterState<R, F, D> {
    WriterState { queue: empty_queue(), calls, possible, close: None }
}

/// What a step of a flush asks the caller to do.
pub enum WriteAction<F, E> {
    /// Poll this write, and report to [`crate::write::HostAsyncWrite::task_polled`].
    PollTask(F),
    /// Try the lock, and hand this write back to [`crate::write::HostAsyncWrite::store_task`].
    StoreTask(F),
    /// Try the lock, and call [`crate::write::HostAsyncWrite::start_flush`] again.
    Restart,
    /// Report this; the flush is over for this time.
    Finish(Report<E>),
}

/// What a shutdown asks the caller to do.
pub enum ShutdownAction<C, E> {
    /// Poll this close request, and report to [`crate::write::HostAsyncWrite::close_polled`].
    PollClose(C),
    /// Report this; the shutdown is over for this time.
    Finish(Report<E>),
}

/// Whether the action is what the queue's reply asks for. A piece to be written is handed to
/// the channel, and that is the only call: where none is to be written there is none.
pub open spec fn carries_out<R, F, D, E>(
    before: WriterState<R, F, D>,
    reply: QueueReply<F, E>,
    action: WriteAction<F, E>,
    calls: Calls<R, F, D>,
) -> bool {
    match reply {
        QueueReply::Nothing => false,
        QueueReply::Poll(task) => action == WriteAction::<F, E>::PollTask(task) && calls
            == before.calls,
        QueueReply::Write(chunk) => action matches WriteAction::StoreTask(task) && {
            &&& calls == before.calls.push(ChannelCall::Write(chunk, task))
            &&& before.possible.contains(ChannelCall::Write(chunk, task))
        },
        QueueReply::Restart => action == WriteAction::<F, E>::Restart && calls == before.calls,
        QueueReply::Finish(report) => action == WriteAction::<F, E>::Finish(report) && calls
            == before.calls,
    }
}

/// Whether a step of a flush, on this event, can lead from one state to another and to this
/// action.
pub open spec fn steps_to<R, F, D, E>(
    before: WriterState<R, F, D>,
    event: QueueEvent<F, E>,
    after: WriterState<R, F, D>,
    action: WriteAction<F, E>,
) -> bool {
    let step = queue_step(before.queue, event);
    &&& after == (WriterState { queue: step.0, calls: after.calls, ..before })
    &&& carries_out(before, step.1, action, after.calls)
}

/// Whether a flush can have taken these steps so far: it begins with an attempt at the lock;
/// after that each step does what was asked for before it, and a write asked for is a write
/// of that piece to the channel.
pub open spec fn flush_course<R, F, D, E>(
    before: WriterState<R, F, D>,
    steps: Seq<QueueEvent<F, E>>,
) -> bool
    decreases steps.len(),
{
    if steps.len() == 0 {
        false
    } else if steps.len() == 1 {
        steps.last() is FlushStarted
    } else {
        let asked = reply_from(before.queue, steps.drop_last());
        flush_course(before, steps.drop_last()) && match steps.last() {
            QueueEvent::Push(_) => false,
            QueueEvent::FlushStarted(_) => asked is Restart,
            QueueEvent::TaskPolled(_) => asked is Poll,
            QueueEvent::TaskStored(task, _) => asked matches QueueReply::Write(chunk)
                && before.possible.contains(ChannelCall::Write(chunk, task)),
        }
    }
}

/// Whether the outcomes in these steps of a flush are such as these two functions can give:
/// the one for each attempt at the lock, the other for each poll of the write asked for.
pub open spec fn outcomes_of<R, F, D, E, L, P>(
    before: WriterState<R, F, D>,
    steps: Seq<QueueEvent<F, E>>,
    try_lock: L,
    poll: P,
) -> bool where L: Fn() -> LockAttempt, P: Fn(F) -> TaskPoll<F, E>
    decreases steps.len(),
{
    if steps.len() == 0 {
        true
    } else {
        outcomes_of(before, steps.drop_last(), try_lock, poll) && match steps.last() {
            QueueEvent::Push(_) => true,
            QueueEvent::FlushStarted(lock) => call_ensures(try_lock, (), lock),
            QueueEvent::TaskPolled(polled) => reply_from(
                before.queue,
                steps.drop_last(),
            ) matches QueueReply::Poll(task) && call_ensures(poll, (task,), polled),
            QueueEvent::TaskStored(_, lock) => call_ensures(try_lock, (), lock),
        }
    }
}

/// Whether a flush whose lock attempts and polls go through these two functions can have
/// taken these steps so far.
pub open spec fn flush_steps<R, F, D, E, L, P>(
    before: WriterState<R, F, D>,
    steps: Seq<QueueEvent<F, E>>,
    try_lock: L,
    poll: P,
) -> bool where L: Fn() -> LockAttempt, P: Fn(F) -> TaskPoll<F, E> {
    flush_course(before, steps) && outcomes_of(before, steps, try_lock, poll)
}

/// The calls that these steps of a flush make on the channel, in order: the writes asked for
/// and no others.
pub open spec fn flush_calls<R, F, D, E>(
    before: WriterState<R, F, D>,
    steps: Seq<QueueEvent<F, E>>,
) -> Calls<R, F, D>
    decreases steps.len(),
{
    if steps.len() == 0 {
        Seq::empty()
    } else {
        let earlier = flush_calls(before, steps.drop_last());
        match (reply_from(before.queue, steps.drop_last()), steps.last()) {
            (QueueReply::Write(chunk), QueueEvent::TaskStored(task, _)) => earlier.push(
                ChannelCall::Write(chunk, task),
            ),
            _ => earlier,
        }
    }
}

/// The state that these steps of a flush lead to.
pub open spec fn flushed_to<R, F, D, E>(
    before: WriterState<R, F, D>,
    steps: Seq<QueueEvent<F, E>>,
) -> WriterState<R, F, D> {
    WriterState {
        queue: state_from(before.queue, steps),
        calls: before.calls + flush_calls(before, steps),
        ..before
    }
}

/// Whether a flush can lead from one state to another and end with this report.
pub open spec fn flushes<R, F, D, E, L, P>(
    before: WriterState<R, F, D>,
    after: WriterState<R, F, D>,
    report: Report<E>,
    try_lock: L,
    poll: P,
) -> bool where L: Fn() -> LockAttempt, P: Fn(F) -> TaskPoll<F, E> {
    exists|steps: Seq<QueueEvent<F, E>>|
        {
            &&& #[trigger] flush_steps(before, steps, try_lock, poll)
            &&& reply_from(before.queue, steps) == QueueReply::<F, E>::Finish(report)
            &&& after == flushed_to(before, steps)
        }
}

/// The steps of a flush are those of a caller that does what the queue asks for.
pub proof fn law_flush_obeys<R, F, D, E>(
    before: WriterState<R, F, D>,
    steps: Seq<QueueEvent<F, E>>,
)
    requires
        flush_course(before, steps),
    ensures
        obeys(before.queue, steps),
    decreases steps.len(),
{
    if steps.len() > 1 {
        law_flush_obeys(before, steps.drop_last());
    } else {
        assert(obeys(before.queue, steps.drop_last()));
    }
}

/// Whether a shutdown polls this close request: the one kept from an earlier poll, and only
/// where there is none a new one.
pub open spec fn carries_on<R, F, D>(before: WriterState<R, F, D>, close: D) -> bool {
    match before.close {
        Some(earlier) => close == earlier,
        None => before.possible.contains(ChannelCall::Close(close)),
    }
}

/// The calls that a shutdown makes for its close request: none where one was kept.
pub open spec fn close_calls<R, F, D>(before: WriterState<R, F, D>, close: D) -> Calls<R, F, D> {
    match before.close {
        Some(_) => Seq::empty(),
        None => seq![ChannelCall::Close(close)],
    }
}

/// The state while this close request is out to be polled.
pub open spec fn closing<R, F, D>(before: WriterState<R, F, D>, close: D) -> WriterState<R, F, D> {
    WriterState { calls: before.calls + close_calls(before, close), close: None, ..before }
}

/// The state after a close request was polled: an unfinished one is kept.
pub open spec fn close_polled_to<R, F, D, E>(
    before: WriterState<R, F, D>,
    polled: TaskPoll<D, E>,
) -> WriterState<R, F, D> {
    WriterState { close: handed_back(polled), ..before }
}

/// Whether polling the close request can lead from one state to another and end with this
/// report: the request kept is polled, or a new one where none is, and what the poll hands
/// back is kept.
pub open spec fn closes<R, F, D, E, Q>(
    before: WriterState<R, F, D>,
    after: WriterState<R, F, D>,
    report: Report<E>,
    poll_close: Q,
) -> bool where Q: Fn(D) -> TaskPoll<D, E> {
    exists|close: D, polled: TaskPoll<D, E>|
        {
            &&& carries_on(before, close)
            &&& #[trigger] call_ensures(poll_close, (close,), polled)
            &&& report == reported(polled)
            &&& after == close_polled_to(closing(before, close), polled)
        }
}

/// Whether a shutdown can go from one state to another and end with this report after a
/// flush with that one: only a successful flush is followed by the close request; otherwise
/// the shutdown reports what the flush did, and does nothing more.
pub open spec fn closes_after<R, F, D, E, Q>(
    flushed: Report<E>,
    before: WriterState<R, F, D>,
    after: WriterState<R, F, D>,
    report: Report<E>,
    poll_close: Q,
) -> bool where Q: Fn(D) -> TaskPoll<D, E> {
    if succeeded(flushed) {
        closes(before, after, report, poll_close)
    } else {
        after == before && report == flushed
    }
}

/// Whether a shutdown can lead from one state to another and end with this report: a flush,
/// and what comes after it.
pub open spec fn shuts_down<R, F, D, E, L, P, Q>(
    before: WriterState<R, F, D>,
    after: WriterState<R, F, D>,
    report: Report<E>,
    try_lock: L,
    poll: P,
    poll_close: Q,
) -> bool where
    L: Fn() -> LockAttempt,
    P: Fn(F) -> TaskPoll<F, E>,
    Q: Fn(D) -> TaskPoll<D, E>,
 {
    exists|middle: WriterState<R, F, D>, flushed: Report<E>|
        {
            &&& #[trigger] flushes(before, middle, flushed, try_lock, poll)
            &&& closes_after(flushed, middle, after, report, poll_close)
        }
}

} // verus!
