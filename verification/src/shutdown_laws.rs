//! What holds of a shutdown, and of the single steps of a flush, in terms of the values that
//! go in and come out.

use vstd::prelude::*;

use crate::flush::{
    carries_on, close_polled_to, closes_after, closing, flushes, shuts_down, steps_to,
    WriteAction, WriterState,
};
use crate::flush_laws::{
    law_error_was_polled, law_failed_writes_mean_an_error, law_pending_was_polled,
    law_success_was_polled, law_unfinished_writes_mean_pending,
};
use crate::host::ChannelCall;
use crate::outcome::{reported, IoError, LockAttempt, Progress, Report, TaskPoll};
use crate::queue::{QueueEvent, QueueState};

verus! {

/// A shutdown is a flush and, only where that reports success, a poll of the close request.
/// The request is the one kept, without another call; where none is kept the channel is
/// asked to close, in one call. What the poll gives is reported, and an unfinished request is
/// kept as the poll handed it back. Where the flush reports anything else, so does the
/// shutdown, and nothing more is done.
pub proof fn law_shutdown_is_a_flush_and_a_close<R, F, D, E, L, P, Q>(
    before: WriterState<R, F, D>,
    after: WriterState<R, F, D>,
    report: Report<E>,
    try_lock: L,
    poll: P,
    poll_close: Q,
) where
    L: Fn() -> LockAttempt,
    P: Fn(F) -> TaskPoll<F, E>,
    Q: Fn(D) -> TaskPoll<D, E>,

    requires
        shuts_down(before, after, report, try_lock, poll, poll_close),
    ensures
        exists|middle: WriterState<R, F, D>, flushed: Report<E>|
            {
                &&& #[trigger] flushes(before, middle, flushed, try_lock, poll)
                &&& !(flushed matches Progress::Ready(Ok(_))) ==> after == middle && report
                    == flushed
                &&& (flushed matches Progress::Ready(Ok(_))) ==> {
                    &&& after.queue == middle.queue
                    &&& after.possible == middle.possible
                    &&& exists|close: D, polled: TaskPoll<D, E>|
                        {
                            &&& #[trigger] call_ensures(poll_close, (close,), polled)
                            &&& match middle.close {
                                Some(kept) => close == kept && after.calls == middle.calls,
                                None => middle.possible.contains(ChannelCall::Close(close))
                                    && after.calls == middle.calls.push(ChannelCall::Close(close)),
                            }
                            &&& match polled {
                                TaskPoll::Pending(kept) => report is Pending && after.close == Some(
                                    kept,
                                ),
                                TaskPoll::Ready(Ok(_)) => (report matches Progress::Ready(Ok(_)))
                                    && after.close is None,
                                TaskPoll::Ready(Err(error)) => report == Progress::<
                                    Result<(), IoError<E>>,
                                >::Ready(Err(IoError::Other(error))) && after.close is None,
                            }
                        }
                }
            },
{
    let (middle, flushed) = choose|middle: WriterState<R, F, D>, flushed: Report<E>|
        {
            &&& #[trigger] flushes(before, middle, flushed, try_lock, poll)
            &&& closes_after(flushed, middle, after, report, poll_close)
        };
    if let Progress::Ready(Ok(_)) = flushed {
        let (close, polled) = choose|close: D, polled: TaskPoll<D, E>|
            {
                &&& carries_on(middle, close)
                &&& #[trigger] call_ensures(poll_close, (close,), polled)
                &&& report == reported(polled)
                &&& after == close_polled_to(closing(middle, close), polled)
            };
        assert(call_ensures(poll_close, (close,), polled));
        if middle.close is Some {
            assert(after.calls =~= middle.calls);
        } else {
            assert(after.calls =~= middle.calls.push(ChannelCall::Close(close)));
        }
    }
    assert(flushes(before, middle, flushed, try_lock, poll));
}

/// A shutdown that reports success was told so by every write that it had to do with and by
/// the close request: all was written, in at most one call, each write polled had finished,
/// and so had the request, which the channel was asked for after that where none was kept.
pub proof fn law_successful_shutdown_was_polled<R, F, D, E, L, P, Q>(
    before: WriterState<R, F, D>,
    after: WriterState<R, F, D>,
    report: Report<E>,
    try_lock: L,
    poll: P,
    poll_close: Q,
) where
    L: Fn() -> LockAttempt,
    P: Fn(F) -> TaskPoll<F, E>,
    Q: Fn(D) -> TaskPoll<D, E>,

    requires
        shuts_down(before, after, report, try_lock, poll, poll_close),
        report matches Progress::Ready(Ok(_)),
    ensures
        call_ensures(try_lock, (), LockAttempt::Acquired),
        before.queue.task matches Some(kept) ==> call_ensures(
            poll,
            (kept,),
            TaskPoll::<F, E>::Ready(Ok(())),
        ),
        exists|close: D|
            {
                &&& #[trigger] call_ensures(poll_close, (close,), TaskPoll::<D, E>::Ready(Ok(())))
                &&& before.close is Some ==> before.close == Some(close)
                &&& before.queue.buffered.len() == 0 ==> after.calls == (if before.close is Some {
                    before.calls
                } else {
                    before.calls.push(ChannelCall::Close(close))
                })
                &&& before.queue.buffered.len() > 0 ==> exists|task: F|
                    {
                        &&& #[trigger] call_ensures(
                            poll,
                            (task,),
                            TaskPoll::<F, E>::Ready(Ok(())),
                        )
                        &&& after.calls == (if before.close is Some {
                            before.calls.push(ChannelCall::Write(before.queue.buffered, task))
                        } else {
                            before.calls.push(
                                ChannelCall::Write(before.queue.buffered, task),
                            ).push(ChannelCall::Close(close))
                        })
                    }
            },
        after.queue.buffered.len() == 0,
        after.queue.task is None,
        after.close is None,
{
    law_shutdown_is_a_flush_and_a_close(before, after, report, try_lock, poll, poll_close);
    let (middle, flushed) = choose|middle: WriterState<R, F, D>, flushed: Report<E>|
        {
            &&& #[trigger] flushes(before, middle, flushed, try_lock, poll)
            &&& !(flushed matches Progress::Ready(Ok(_))) ==> after == middle && report == flushed
            &&& (flushed matches Progress::Ready(Ok(_))) ==> {
                &&& after.queue == middle.queue
                &&& after.possible == middle.possible
                &&& exists|close: D, polled: TaskPoll<D, E>|
                    {
                        &&& #[trigger] call_ensures(poll_close, (close,), polled)
                        &&& match middle.close {
                            Some(kept) => close == kept && after.calls == middle.calls,
                            None => middle.possible.contains(ChannelCall::Close(close))
                                && after.calls == middle.calls.push(ChannelCall::Close(close)),
                        }
                        &&& match polled {
                            TaskPoll::Pending(kept) => report is Pending && after.close == Some(
                                kept,
                            ),
                            TaskPoll::Ready(Ok(_)) => (report matches Progress::Ready(Ok(_)))
                                && after.close is None,
                            TaskPoll::Ready(Err(error)) => report == Progress::<
                                Result<(), IoError<E>>,
                            >::Ready(Err(IoError::Other(error))) && after.close is None,
                        }
                    }
            }
        };
    law_success_was_polled(before, middle, flushed, try_lock, poll);
    let (close, polled) = choose|close: D, polled: TaskPoll<D, E>|
        {
            &&& #[trigger] call_ensures(poll_close, (close,), polled)
            &&& match middle.close {
                Some(kept) => close == kept && after.calls == middle.calls,
                None => middle.possible.contains(ChannelCall::Close(close)) && after.calls
                    == middle.calls.push(ChannelCall::Close(close)),
            }
            &&& match polled {
                TaskPoll::Pending(kept) => report is Pending && after.close == Some(kept),
                TaskPoll::Ready(Ok(_)) => (report matches Progress::Ready(Ok(_)))
                    && after.close is None,
                TaskPoll::Ready(Err(error)) => report == Progress::<
                    Result<(), IoError<E>>,
                >::Ready(Err(IoError::Other(error))) && after.close is None,
            }
        };
    if let TaskPoll::Ready(Ok(unit)) = polled {
        assert(unit == ());
        assert(call_ensures(poll_close, (close,), TaskPoll::<D, E>::Ready(Ok(()))));
    }
}

/// Where the lock is free, and every poll of a write that a shutdown has to do with finds it
/// failed, a shutdown that has one to poll reports an error that a poll of such a write gave,
/// and the channel is not asked to close.
pub proof fn law_failed_writes_are_not_closed_over<R, F, D, E, L, P, Q>(
    before: WriterState<R, F, D>,
    after: WriterState<R, F, D>,
    report: Report<E>,
    try_lock: L,
    poll: P,
    poll_close: Q,
) where
    L: Fn() -> LockAttempt,
    P: Fn(F) -> TaskPoll<F, E>,
    Q: Fn(D) -> TaskPoll<D, E>,

    requires
        shuts_down(before, after, report, try_lock, poll, poll_close),
        forall|lock: LockAttempt| #[trigger]
            call_ensures(try_lock, (), lock) ==> lock == LockAttempt::Acquired,
        forall|task: F, polled: TaskPoll<F, E>|
            (before.queue.task == Some(task) || before.possible.contains(
                ChannelCall::Write(before.queue.buffered, task),
            )) && #[trigger] call_ensures(poll, (task,), polled) ==> (
            polled matches TaskPoll::Ready(Err(_))),
        before.queue.task is Some || before.queue.buffered.len() > 0,
    ensures
        exists|task: F, error: E|
            {
                &&& #[trigger] call_ensures(poll, (task,), TaskPoll::<F, E>::Ready(Err(error)))
                &&& report == Progress::<Result<(), IoError<E>>>::Ready(
                    Err(IoError::Other(error)),
                )
                &&& after.calls == before.calls || after.calls == before.calls.push(
                    ChannelCall::Write(before.queue.buffered, task),
                )
            },
        after.close == before.close,
{
    let (middle, flushed) = choose|middle: WriterState<R, F, D>, flushed: Report<E>|
        {
            &&& #[trigger] flushes(before, middle, flushed, try_lock, poll)
            &&& closes_after(flushed, middle, after, report, poll_close)
        };
    law_failed_writes_mean_an_error(before, middle, flushed, try_lock, poll);
    if let Progress::Ready(Err(IoError::Other(error))) = flushed {
        law_error_was_polled(before, middle, error, try_lock, poll);
        let task = choose|task: F|
            {
                &&& #[trigger] call_ensures(poll, (task,), TaskPoll::<F, E>::Ready(Err(error)))
                &&& middle.calls == before.calls || middle.calls == before.calls.push(
                    ChannelCall::Write(before.queue.buffered, task),
                )
            };
        assert(call_ensures(poll, (task,), TaskPoll::<F, E>::Ready(Err(error))));
    }
}

/// Where the lock is free, and every poll of a write that a shutdown has to do with finds it
/// unfinished, a shutdown that has one to poll is pending, and the channel is not asked to
/// close.
pub proof fn law_unfinished_writes_are_not_closed_over<R, F, D, E, L, P, Q>(
    before: WriterState<R, F, D>,
    after: WriterState<R, F, D>,
    report: Report<E>,
    try_lock: L,
    poll: P,
    poll_close: Q,
) where
    L: Fn() -> LockAttempt,
    P: Fn(F) -> TaskPoll<F, E>,
    Q: Fn(D) -> TaskPoll<D, E>,

    requires
        shuts_down(before, after, report, try_lock, poll, poll_close),
        forall|lock: LockAttempt| #[trigger]
            call_ensures(try_lock, (), lock) ==> lock == LockAttempt::Acquired,
        forall|task: F, polled: TaskPoll<F, E>|
            (before.queue.task == Some(task) || before.possible.contains(
                ChannelCall::Write(before.queue.buffered, task),
            )) && #[trigger] call_ensures(poll, (task,), polled) ==> polled is Pending,
        before.queue.task is Some || before.queue.buffered.len() > 0,
    ensures
        report is Pending,
        after.calls == before.calls || exists|task: F|
            after.calls == #[trigger] before.calls.push(
                ChannelCall::Write(before.queue.buffered, task),
            ),
        after.queue.task is Some,
        after.close == before.close,
{
    let (middle, flushed) = choose|middle: WriterState<R, F, D>, flushed: Report<E>|
        {
            &&& #[trigger] flushes(before, middle, flushed, try_lock, poll)
            &&& closes_after(flushed, middle, after, report, poll_close)
        };
    law_unfinished_writes_mean_pending(before, middle, flushed, try_lock, poll);
    law_pending_was_polled(before, middle, flushed, try_lock, poll);
}

/// How a flush begins: with the lock held it is over at once, as pending. Else the write kept
/// is taken out to be polled; where none is, everything buffered is handed to the channel in
/// one call; and where nothing is buffered either, the flush has succeeded.
pub proof fn law_first_step<R, F, D, E>(
    before: WriterState<R, F, D>,
    lock: LockAttempt,
    after: WriterState<R, F, D>,
    action: WriteAction<F, E>,
)
    requires
        steps_to(before, QueueEvent::FlushStarted(lock), after, action),
    ensures
        lock is Held ==> after == before && (action matches WriteAction::Finish(report)
            && report is Pending),
        lock is Acquired ==> match before.queue.task {
            Some(kept) => {
                &&& action == WriteAction::<F, E>::PollTask(kept)
                &&& after == (WriterState {
                    queue: QueueState { buffered: before.queue.buffered, task: None },
                    ..before
                })
            },
            None => if before.queue.buffered.len() == 0 {
                after == before && (action matches WriteAction::Finish(report) && (
                report matches Progress::Ready(Ok(_))))
            } else {
                action matches WriteAction::StoreTask(task) && {
                    &&& before.possible.contains(ChannelCall::Write(before.queue.buffered, task))
                    &&& after == (WriterState {
                        queue: QueueState { buffered: Seq::empty(), task: None },
                        calls: before.calls.push(ChannelCall::Write(before.queue.buffered, task)),
                        ..before
                    })
                }
            },
        },
{
}

/// How a flush goes on once its write was polled: an unfinished write is kept as it was handed
/// back, and the flush is pending; a failed one is reported; and after one that finished,
/// everything buffered is handed to the channel in one call or, where nothing is, the flush
/// has succeeded.
pub proof fn law_step_after_a_poll<R, F, D, E>(
    before: WriterState<R, F, D>,
    polled: TaskPoll<F, E>,
    after: WriterState<R, F, D>,
    action: WriteAction<F, E>,
)
    requires
        steps_to(before, QueueEvent::TaskPolled(polled), after, action),
    ensures
        match polled {
            TaskPoll::Pending(kept) => {
                &&& action matches WriteAction::Finish(report)
                &&& report is Pending
                &&& after == (WriterState {
                    queue: QueueState { buffered: before.queue.buffered, task: Some(kept) },
                    ..before
                })
            },
            TaskPoll::Ready(Err(error)) => after == before && action == WriteAction::<
                F,
                E,
            >::Finish(Progress::Ready(Err(IoError::Other(error)))),
            TaskPoll::Ready(Ok(_)) => if before.queue.buffered.len() == 0 {
                after == before && (action matches WriteAction::Finish(report) && (
                report matches Progress::Ready(Ok(_))))
            } else {
                action matches WriteAction::StoreTask(task) && {
                    &&& before.possible.contains(ChannelCall::Write(before.queue.buffered, task))
                    &&& after == (WriterState {
                        queue: QueueState { buffered: Seq::empty(), task: before.queue.task },
                        calls: before.calls.push(ChannelCall::Write(before.queue.buffered, task)),
                        ..before
                    })
                }
            },
        },
{
}

/// How a flush goes on once it has a new write: with the lock free the write is kept and the
/// flush begins again; with the lock held it is pending, without the write.
pub proof fn law_step_with_a_new_write<R, F, D, E>(
    before: WriterState<R, F, D>,
    task: F,
    lock: LockAttempt,
    after: WriterState<R, F, D>,
    action: WriteAction<F, E>,
)
    requires
        steps_to(before, QueueEvent::TaskStored(task, lock), after, action),
    ensures
        lock is Held ==> after == before && (action matches WriteAction::Finish(report)
            && report is Pending),
        lock is Acquired ==> {
            &&& action is Restart
            &&& after == (WriterState {
                queue: QueueState { buffered: before.queue.buffered, task: Some(task) },
                ..before
            })
        },
{
}

} // verus!
