//! What holds of a flush, step by step and as a whole, and of a shutdown's close request.

use vstd::prelude::*;

use crate::flush::{
    carries_on, close_polled_to, closes, closing, flush_calls, flush_steps, flushed_to, flushes,
    law_flush_obeys, WriterState,
};
use crate::host::{Calls, ChannelCall};
use crate::outcome::{reported, succeeded, IoError, LockAttempt, Progress, Report, TaskPoll};
use crate::queue::{empty_queue, queue_step, QueueEvent, QueueReply, QueueState};
use crate::queue_laws::{finds_lock_held, lock_free};
use crate::queue_run::{
    law_flush_ends, law_flushed_means_empty, next_phase, reply_from, state_from, steps_left,
};

verus! {

/// Whether this attempt at the lock can only find it free.
pub open spec fn always_free<L: Fn() -> LockAttempt>(try_lock: L) -> bool {
    forall|lock: LockAttempt| #[trigger] call_ensures(try_lock, (), lock) ==> lock is Acquired
}

/// Whether this is a poll of a write that was unfinished.
pub open spec fn found_unfinished<F, E>(event: QueueEvent<F, E>) -> bool {
    event matches QueueEvent::TaskPolled(TaskPoll::Pending(_))
}

/// Whether this is a poll of a write that had failed.
pub open spec fn found_failed<F, E>(event: QueueEvent<F, E>) -> bool {
    event matches QueueEvent::TaskPolled(TaskPoll::Ready(Err(_)))
}

/// Whether this write is one of everything that was buffered.
pub open spec fn writes_buffered<R, F, D>(before: WriterState<R, F, D>, task: F) -> bool {
    &&& before.queue.buffered.len() > 0
    &&& before.possible.contains(ChannelCall::Write(before.queue.buffered, task))
}

/// Whether this write is the one that a flush polls: the one kept, or the one of everything
/// buffered.
pub open spec fn write_of_flush<R, F, D>(before: WriterState<R, F, D>, task: F) -> bool {
    before.queue.task == Some(task) || writes_buffered(before, task)
}

/// Whether these calls are a write of everything buffered, and nothing else.
pub open spec fn only_write<R, F, D>(
    before: WriterState<R, F, D>,
    calls: Calls<R, F, D>,
    task: F,
) -> bool {
    &&& calls == seq![ChannelCall::<R, F, D>::Write(before.queue.buffered, task)]
    &&& writes_buffered(before, task)
}

/// Whether the write kept, where there was one, can have been found finished.
spec fn kept_can_finish<R, F, D, E, P>(before: WriterState<R, F, D>, poll: P) -> bool where
    P: Fn(F) -> TaskPoll<F, E>,
 {
    before.queue.task matches Some(kept) ==> call_ensures(
        poll,
        (kept,),
        TaskPoll::<F, E>::Ready(Ok(())),
    )
}

/// How a flush that called nothing on the channel ended.
spec fn ended_without_write<R, F, D, E, L, P>(
    before: WriterState<R, F, D>,
    state: QueueState<F>,
    report: Report<E>,
    try_lock: L,
    poll: P,
) -> bool where L: Fn() -> LockAttempt, P: Fn(F) -> TaskPoll<F, E> {
    &&& state.buffered == before.queue.buffered
    &&& match report {
        Progress::Pending => {
            ||| call_ensures(try_lock, (), LockAttempt::Held) && state == before.queue
            ||| call_ensures(try_lock, (), LockAttempt::Acquired) && exists|task: F, kept: F|
                {
                    &&& before.queue.task == Some(task)
                    &&& state.task == Some(kept)
                    &&& #[trigger] call_ensures(poll, (task,), TaskPoll::<F, E>::Pending(kept))
                }
        },
        Progress::Ready(Ok(_)) => {
            &&& call_ensures(try_lock, (), LockAttempt::Acquired)
            &&& kept_can_finish(before, poll)
            &&& state.buffered.len() == 0
            &&& state.task is None
        },
        Progress::Ready(Err(IoError::Other(error))) => {
            &&& call_ensures(try_lock, (), LockAttempt::Acquired)
            &&& state.task is None
            &&& exists|task: F|
                before.queue.task == Some(task) && #[trigger] call_ensures(
                    poll,
                    (task,),
                    TaskPoll::<F, E>::Ready(Err(error)),
                )
        },
    }
}

/// How a flush that wrote everything buffered ended.
spec fn ended_with_write<R, F, D, E, L, P>(
    before: WriterState<R, F, D>,
    state: QueueState<F>,
    task: F,
    report: Report<E>,
    try_lock: L,
    poll: P,
) -> bool where L: Fn() -> LockAttempt, P: Fn(F) -> TaskPoll<F, E> {
    &&& call_ensures(try_lock, (), LockAttempt::Acquired)
    &&& kept_can_finish(before, poll)
    &&& state.buffered.len() == 0
    &&& match report {
        Progress::Pending => {
            ||| call_ensures(try_lock, (), LockAttempt::Held) && (state.task is None || state.task
                == Some(task))
            ||| exists|kept: F|
                state.task == Some(kept) && #[trigger] call_ensures(
                    poll,
                    (task,),
                    TaskPoll::<F, E>::Pending(kept),
                )
        },
        Progress::Ready(Ok(_)) => state.task is None && call_ensures(
            poll,
            (task,),
            TaskPoll::<F, E>::Ready(Ok(())),
        ),
        Progress::Ready(Err(IoError::Other(error))) => state.task is None && call_ensures(
            poll,
            (task,),
            TaskPoll::<F, E>::Ready(Err(error)),
        ),
    }
}

/// Where a flush stands after each of its steps, and what it has called on the channel.
proof fn lemma_flush_so_far<R, F, D, E, L, P>(
    before: WriterState<R, F, D>,
    steps: Seq<QueueEvent<F, E>>,
    try_lock: L,
    poll: P,
) where L: Fn() -> LockAttempt, P: Fn(F) -> TaskPoll<F, E>
    requires
        flush_steps(before, steps, try_lock, poll),
    ensures
        ({
            let state = state_from(before.queue, steps);
            let calls = flush_calls(before, steps);
            let acquired = call_ensures(try_lock, (), LockAttempt::Acquired);
            match reply_from(before.queue, steps) {
                QueueReply::Nothing => false,
                QueueReply::Poll(task) => acquired && state.task is None && if steps.len() == 1 {
                    before.queue.task == Some(task) && state.buffered == before.queue.buffered
                        && calls.len() == 0
                } else {
                    state.buffered.len() == 0 && only_write(before, calls, task)
                        && kept_can_finish(before, poll)
                },
                QueueReply::Write(chunk) => acquired && kept_can_finish(before, poll) && chunk
                    == before.queue.buffered && chunk.len() > 0 && state == empty_queue::<F>()
                    && calls.len() == 0 && match before.queue.task {
                    None => steps.len() == 1,
                    Some(task) => steps.len() == 2 && (
                    steps.last() matches QueueEvent::TaskPolled(polled) && polled matches
                        TaskPoll::Ready(Ok(_)) && call_ensures(poll, (task,), polled)),
                },
                QueueReply::Restart => acquired && kept_can_finish(before, poll) && steps.len() > 1
                    && state.buffered.len() == 0 && (state.task matches Some(task) && only_write(
                    before,
                    calls,
                    task,
                )),
                QueueReply::Finish(report) => if calls.len() == 0 {
                    ended_without_write(before, state, report, try_lock, poll)
                } else {
                    exists|task: F| #[trigger]
                        only_write(before, calls, task) && ended_with_write(
                            before,
                            state,
                            task,
                            report,
                            try_lock,
                            poll,
                        )
                },
            }
        }),
    decreases steps.len(),
{
    let earlier = steps.drop_last();
    if steps.len() > 1 {
        lemma_flush_so_far(before, earlier, try_lock, poll);
        if steps.len() == 2 {
            assert(earlier.drop_last() =~= Seq::empty());
        }
    } else {
        assert(earlier =~= Seq::empty());
        assert(flush_calls(before, earlier) =~= Seq::empty());
    }
    if let QueueReply::Write(chunk) = reply_from(before.queue, earlier) {
        if let QueueEvent::TaskStored(task, _) = steps.last() {
            assert(flush_calls(before, steps) =~= seq![ChannelCall::<R, F, D>::Write(chunk, task)]);
            assert(only_write(before, flush_calls(before, steps), task));
        }
    }
    if let QueueReply::Poll(task) = reply_from(before.queue, earlier) {
        assert(flush_calls(before, steps) == flush_calls(before, earlier));
        if let QueueEvent::TaskPolled(TaskPoll::Ready(Ok(unit))) = steps.last() {
            assert(unit == ());
        }
        if earlier.len() > 1 {
            assert(only_write(before, flush_calls(before, steps), task));
        }
    }
    if let QueueReply::Restart = reply_from(before.queue, earlier) {
        let task = state_from(before.queue, earlier).task->0;
        assert(only_write(before, flush_calls(before, steps), task));
    }
    if reply_from(before.queue, steps) is Write {
        assert(state_from(before.queue, steps) =~= empty_queue::<F>());
    }
}

/// The first steps of a flush are those of a flush, and all but the last ask for more. The
/// number of steps that may be left falls with each.
proof fn lemma_flush_goes_on<R, F, D, E, L, P>(
    before: WriterState<R, F, D>,
    steps: Seq<QueueEvent<F, E>>,
    try_lock: L,
    poll: P,
    i: int,
) where L: Fn() -> LockAttempt, P: Fn(F) -> TaskPoll<F, E>
    requires
        flush_steps(before, steps, try_lock, poll),
        0 < i < steps.len(),
    ensures
        flush_steps(before, steps.take(i), try_lock, poll),
        !(reply_from(before.queue, steps.take(i)) is Finish),
        steps_left(state_from(before.queue, steps), next_phase(reply_from(before.queue, steps)))
            < steps_left(
            state_from(before.queue, steps.take(i)),
            next_phase(reply_from(before.queue, steps.take(i))),
        ),
    decreases steps.len(),
{
    let earlier = steps.drop_last();
    law_flush_obeys(before, steps);
    law_flush_ends(before.queue, steps);
    lemma_flush_so_far(before, earlier, try_lock, poll);
    if i == earlier.len() {
        assert(steps.take(i) =~= earlier);
    } else {
        lemma_flush_goes_on(before, earlier, try_lock, poll, i);
        assert(earlier.take(i) =~= steps.take(i));
    }
}

/// A flush that reports success was told so by every write that it had to do with. The lock
/// was found free; the write kept, where there was one, was polled and had finished; and
/// where anything was buffered it was written, in one call that is the only one, and that
/// write was polled and had finished. Nothing is left.
pub proof fn law_success_was_polled<R, F, D, E, L, P>(
    before: WriterState<R, F, D>,
    after: WriterState<R, F, D>,
    report: Report<E>,
    try_lock: L,
    poll: P,
) where L: Fn() -> LockAttempt, P: Fn(F) -> TaskPoll<F, E>
    requires
        flushes(before, after, report, try_lock, poll),
        report matches Progress::Ready(Ok(_)),
    ensures
        call_ensures(try_lock, (), LockAttempt::Acquired),
        before.queue.task matches Some(kept) ==> call_ensures(
            poll,
            (kept,),
            TaskPoll::<F, E>::Ready(Ok(())),
        ),
        before.queue.buffered.len() == 0 ==> after.calls == before.calls,
        before.queue.buffered.len() > 0 ==> exists|task: F|
            {
                &&& #[trigger] call_ensures(poll, (task,), TaskPoll::<F, E>::Ready(Ok(())))
                &&& before.possible.contains(ChannelCall::Write(before.queue.buffered, task))
                &&& after.calls == before.calls.push(
                    ChannelCall::Write(before.queue.buffered, task),
                )
            },
        after.queue.buffered.len() == 0,
        after.queue.task is None,
        after.possible == before.possible,
        after.close == before.close,
{
    lemma_flush_ended(before, after, report, try_lock, poll);
}

/// A flush that reports an error was given it by a write that it polled: the write kept,
/// with nothing written and what was buffered still there; or, where that had finished, the
/// write of everything buffered, which is the only call. No write is kept.
pub proof fn law_error_was_polled<R, F, D, E, L, P>(
    before: WriterState<R, F, D>,
    after: WriterState<R, F, D>,
    error: E,
    try_lock: L,
    poll: P,
) where L: Fn() -> LockAttempt, P: Fn(F) -> TaskPoll<F, E>
    requires
        flushes(before, after, Progress::Ready(Err(IoError::Other(error))), try_lock, poll),
    ensures
        call_ensures(try_lock, (), LockAttempt::Acquired),
        exists|task: F|
            {
                &&& #[trigger] call_ensures(poll, (task,), TaskPoll::<F, E>::Ready(Err(error)))
                &&& {
                    ||| {
                        &&& before.queue.task == Some(task)
                        &&& after.calls == before.calls
                        &&& after.queue.buffered == before.queue.buffered
                    }
                    ||| {
                        &&& (before.queue.task matches Some(earlier) ==> call_ensures(
                            poll,
                            (earlier,),
                            TaskPoll::<F, E>::Ready(Ok(())),
                        ))
                        &&& before.queue.buffered.len() > 0
                        &&& before.possible.contains(
                            ChannelCall::Write(before.queue.buffered, task),
                        )
                        &&& after.calls == before.calls.push(
                            ChannelCall::Write(before.queue.buffered, task),
                        )
                        &&& after.queue.buffered.len() == 0
                    }
                }
            },
        after.queue.task is None,
        after.possible == before.possible,
        after.close == before.close,
{
    let report = Progress::<Result<(), IoError<E>>>::Ready(Err(IoError::Other(error)));
    lemma_flush_ended(before, after, report, try_lock, poll);
}

/// A flush that reports pending found the lock held before it did anything; or polled the
/// write kept, which was unfinished and stays kept as the poll handed it back, with nothing
/// written; or, where that had finished, wrote everything buffered in one call. In the last
/// case the lock was then found held, or that write was polled, was unfinished, and is kept
/// as the poll handed it back.
pub proof fn law_pending_was_polled<R, F, D, E, L, P>(
    before: WriterState<R, F, D>,
    after: WriterState<R, F, D>,
    report: Report<E>,
    try_lock: L,
    poll: P,
) where L: Fn() -> LockAttempt, P: Fn(F) -> TaskPoll<F, E>
    requires
        flushes(before, after, report, try_lock, poll),
        report is Pending,
    ensures
        ({
            ||| after == before && call_ensures(try_lock, (), LockAttempt::Held)
            ||| call_ensures(try_lock, (), LockAttempt::Acquired) && exists|task: F, kept: F|
                {
                    &&& #[trigger] call_ensures(poll, (task,), TaskPoll::<F, E>::Pending(kept))
                    &&& before.queue.task == Some(task)
                    &&& after.queue.task == Some(kept)
                    &&& after.queue.buffered == before.queue.buffered
                    &&& after.calls == before.calls
                }
            ||| call_ensures(try_lock, (), LockAttempt::Acquired) && exists|task: F|
                {
                    &&& after.calls == #[trigger] before.calls.push(
                        ChannelCall::Write(before.queue.buffered, task),
                    )
                    &&& before.possible.contains(ChannelCall::Write(before.queue.buffered, task))
                    &&& before.queue.buffered.len() > 0
                    &&& after.queue.buffered.len() == 0
                    &&& (before.queue.task matches Some(earlier) ==> call_ensures(
                        poll,
                        (earlier,),
                        TaskPoll::<F, E>::Ready(Ok(())),
                    ))
                    &&& {
                        ||| call_ensures(try_lock, (), LockAttempt::Held) && (after.queue.task
                            is None || after.queue.task == Some(task))
                        ||| exists|kept: F|
                            after.queue.task == Some(kept) && #[trigger] call_ensures(
                                poll,
                                (task,),
                                TaskPoll::<F, E>::Pending(kept),
                            )
                    }
                }
        }),
        after.possible == before.possible,
        after.close == before.close,
{
    lemma_flush_ended(before, after, report, try_lock, poll);
    if after.calls == before.calls && after.queue == before.queue {
        assert(after =~= before);
    }
}

/// Where the lock is held, a flush is pending and does nothing.
pub proof fn law_held_lock_stops_a_flush<R, F, D, E, L, P>(
    before: WriterState<R, F, D>,
    after: WriterState<R, F, D>,
    report: Report<E>,
    try_lock: L,
    poll: P,
) where L: Fn() -> LockAttempt, P: Fn(F) -> TaskPoll<F, E>
    requires
        flushes(before, after, report, try_lock, poll),
        forall|lock: LockAttempt| #[trigger]
            call_ensures(try_lock, (), lock) ==> lock == LockAttempt::Held,
    ensures
        report is Pending,
        after == before,
{
    lemma_flush_ended(before, after, report, try_lock, poll);
    assert(call_ensures(try_lock, (), LockAttempt::Acquired) ==> false);
    assert(after =~= before);
}

/// Where the lock is free, and every poll of a write that a flush has to do with finds it
/// unfinished, a flush that has one to poll is pending and keeps it.
pub proof fn law_unfinished_writes_mean_pending<R, F, D, E, L, P>(
    before: WriterState<R, F, D>,
    after: WriterState<R, F, D>,
    report: Report<E>,
    try_lock: L,
    poll: P,
) where L: Fn() -> LockAttempt, P: Fn(F) -> TaskPoll<F, E>
    requires
        flushes(before, after, report, try_lock, poll),
        forall|lock: LockAttempt| #[trigger]
            call_ensures(try_lock, (), lock) ==> lock == LockAttempt::Acquired,
        forall|task: F, polled: TaskPoll<F, E>|
            (before.queue.task == Some(task) || before.possible.contains(
                ChannelCall::Write(before.queue.buffered, task),
            )) && #[trigger] call_ensures(poll, (task,), polled) ==> polled is Pending,
        before.queue.task is Some || before.queue.buffered.len() > 0,
    ensures
        report is Pending,
        exists|task: F, kept: F|
            {
                &&& #[trigger] call_ensures(poll, (task,), TaskPoll::<F, E>::Pending(kept))
                &&& after.queue.task == Some(kept)
                &&& before.queue.task == Some(task) || after.calls == before.calls.push(
                    ChannelCall::Write(before.queue.buffered, task),
                )
            },
{
    lemma_flush_ended(before, after, report, try_lock, poll);
    assert(call_ensures(try_lock, (), LockAttempt::Held) ==> false);
}

/// Where the lock is free, and every poll of a write that a flush has to do with finds it
/// failed, a flush that has one to poll reports an error that a poll of such a write gave.
pub proof fn law_failed_writes_mean_an_error<R, F, D, E, L, P>(
    before: WriterState<R, F, D>,
    after: WriterState<R, F, D>,
    report: Report<E>,
    try_lock: L,
    poll: P,
) where L: Fn() -> LockAttempt, P: Fn(F) -> TaskPoll<F, E>
    requires
        flushes(before, after, report, try_lock, poll),
        forall|lock: LockAttempt| #[trigger]
            call_ensures(try_lock, (), lock) ==> lock == LockAttempt::Acquired,
        forall|task: F, polled: TaskPoll<F, E>|
            (before.queue.task == Some(task) || before.possible.contains(
                ChannelCall::Write(before.queue.buffered, task),
            )) && #[trigger] call_ensures(poll, (task,), polled) ==> (
            polled matches TaskPoll::Ready(Err(_))),
        before.queue.task is Some || before.queue.buffered.len() > 0,
    ensures
        exists|task: F, error: E|
            {
                &&& #[trigger] call_ensures(poll, (task,), TaskPoll::<F, E>::Ready(Err(error)))
                &&& report == Progress::<Result<(), IoError<E>>>::Ready(
                    Err(IoError::Other(error)),
                )
                &&& before.queue.task == Some(task) || after.calls == before.calls.push(
                    ChannelCall::Write(before.queue.buffered, task),
                )
            },
        after.queue.task is None,
{
    lemma_flush_ended(before, after, report, try_lock, poll);
    assert(call_ensures(try_lock, (), LockAttempt::Held) ==> false);
    if let Progress::Ready(Err(IoError::Other(error))) = report {
        law_error_was_polled(before, after, error, try_lock, poll);
        let task = choose|task: F|
            {
                &&& #[trigger] call_ensures(poll, (task,), TaskPoll::<F, E>::Ready(Err(error)))
                &&& before.queue.task == Some(task) || after.calls == before.calls.push(
                    ChannelCall::Write(before.queue.buffered, task),
                )
            };
        assert(call_ensures(poll, (task,), TaskPoll::<F, E>::Ready(Err(error))));
    }
}

/// How a flush ended, with the write that it made or with none.
proof fn lemma_flush_ended<R, F, D, E, L, P>(
    before: WriterState<R, F, D>,
    after: WriterState<R, F, D>,
    report: Report<E>,
    try_lock: L,
    poll: P,
) where L: Fn() -> LockAttempt, P: Fn(F) -> TaskPoll<F, E>
    requires
        flushes(before, after, report, try_lock, poll),
    ensures
        after.possible == before.possible,
        after.close == before.close,
        ({
            ||| after.calls == before.calls && ended_without_write(
                before,
                after.queue,
                report,
                try_lock,
                poll,
            )
            ||| exists|task: F|
                {
                    &&& #[trigger] writes_buffered(before, task)
                    &&& after.calls == before.calls.push(
                        ChannelCall::Write(before.queue.buffered, task),
                    )
                    &&& ended_with_write(before, after.queue, task, report, try_lock, poll)
                }
        }),
{
    let steps = choose|steps: Seq<QueueEvent<F, E>>|
        {
            &&& #[trigger] flush_steps(before, steps, try_lock, poll)
            &&& reply_from(before.queue, steps) == QueueReply::<F, E>::Finish(report)
            &&& after == flushed_to(before, steps)
        };
    let calls = flush_calls(before, steps);
    let state = state_from(before.queue, steps);
    lemma_flush_so_far(before, steps, try_lock, poll);
    if calls.len() == 0 {
        assert(before.calls + calls =~= before.calls);
    } else {
        let task = choose|task: F| #[trigger]
            only_write(before, calls, task) && ended_with_write(
                before,
                state,
                task,
                report,
                try_lock,
                poll,
            );
        assert(writes_buffered(before, task));
        assert(before.calls + calls =~= before.calls.push(
            ChannelCall::Write(before.queue.buffered, task),
        ));
    }
}

/// A flush calls nothing on the channel, or writes to it once. That write takes everything
/// that was buffered, and is not empty; where there is none, what was buffered still is.
pub proof fn law_calls_of_a_flush<R, F, D, E, L, P>(
    before: WriterState<R, F, D>,
    after: WriterState<R, F, D>,
    report: Report<E>,
    try_lock: L,
    poll: P,
) where L: Fn() -> LockAttempt, P: Fn(F) -> TaskPoll<F, E>
    requires
        flushes(before, after, report, try_lock, poll),
    ensures
        after.calls == before.calls ==> after.queue.buffered == before.queue.buffered,
        after.calls != before.calls ==> after.queue.buffered.len() == 0 && exists|task: F|
            {
                &&& #[trigger] writes_buffered(before, task)
                &&& after.calls == before.calls.push(
                    ChannelCall::Write(before.queue.buffered, task),
                )
            },
        after.close == before.close,
        after.possible == before.possible,
{
    let steps = choose|steps: Seq<QueueEvent<F, E>>|
        {
            &&& #[trigger] flush_steps(before, steps, try_lock, poll)
            &&& reply_from(before.queue, steps) == QueueReply::<F, E>::Finish(report)
            &&& after == flushed_to(before, steps)
        };
    let calls = flush_calls(before, steps);
    lemma_flush_so_far(before, steps, try_lock, poll);
    if calls.len() == 0 {
        assert(before.calls + calls =~= before.calls);
    } else {
        let task = choose|task: F| #[trigger] only_write(before, calls, task);
        assert(writes_buffered(before, task));
        assert(before.calls + calls =~= before.calls.push(
            ChannelCall::Write(before.queue.buffered, task),
        ));
    }
}

/// A flush asks for a write only of everything buffered, and only once no write is under
/// way: at its first step where none was kept, else after the write kept was polled and
/// had finished.
pub proof fn law_write_follows_the_one_kept<R, F, D, E, L, P>(
    before: WriterState<R, F, D>,
    steps: Seq<QueueEvent<F, E>>,
    try_lock: L,
    poll: P,
) where L: Fn() -> LockAttempt, P: Fn(F) -> TaskPoll<F, E>
    requires
        flush_steps(before, steps, try_lock, poll),
        reply_from(before.queue, steps) is Write,
    ensures
        reply_from(before.queue, steps) == QueueReply::<F, E>::Write(before.queue.buffered),
        before.queue.task is None ==> steps.len() == 1,
        before.queue.task matches Some(task) ==> steps.len() == 2 && (
        steps.last() matches QueueEvent::TaskPolled(polled) && polled matches TaskPoll::Ready(Ok(_))
            && call_ensures(poll, (task,), polled)),
{
    lemma_flush_so_far(before, steps, try_lock, poll);
}

/// A flush asks for at most one write.
pub proof fn law_one_write_in_a_flush<R, F, D, E, L, P>(
    before: WriterState<R, F, D>,
    steps: Seq<QueueEvent<F, E>>,
    try_lock: L,
    poll: P,
    i: int,
    j: int,
) where L: Fn() -> LockAttempt, P: Fn(F) -> TaskPoll<F, E>
    requires
        flush_steps(before, steps, try_lock, poll),
        0 < i <= steps.len(),
        0 < j <= steps.len(),
        reply_from(before.queue, steps.take(i)) is Write,
        reply_from(before.queue, steps.take(j)) is Write,
    ensures
        i == j,
{
    let (low, high) = if i <= j {
        (i, j)
    } else {
        (j, i)
    };
    if low < high {
        let upto = steps.take(high);
        if high < steps.len() {
            lemma_flush_goes_on(before, steps, try_lock, poll, high);
        } else {
            assert(upto =~= steps);
        }
        lemma_flush_goes_on(before, upto, try_lock, poll, low);
        assert(upto.take(low) =~= steps.take(low));
    }
}

/// Where the lock is free, a flush is pending exactly where a write polled in it was
/// unfinished, which is then the last thing that happened in it.
pub proof fn law_pending_iff_found_unfinished<R, F, D, E, L, P>(
    before: WriterState<R, F, D>,
    steps: Seq<QueueEvent<F, E>>,
    report: Report<E>,
    try_lock: L,
    poll: P,
) where L: Fn() -> LockAttempt, P: Fn(F) -> TaskPoll<F, E>
    requires
        always_free(try_lock),
        flush_steps(before, steps, try_lock, poll),
        reply_from(before.queue, steps) == QueueReply::<F, E>::Finish(report),
    ensures
        report is Pending <==> found_unfinished(steps.last()),
        forall|i: int| 0 <= i < steps.len() - 1 ==> !found_unfinished(#[trigger] steps[i]),
{
    assert forall|i: int| 0 <= i < steps.len() - 1 implies !found_unfinished(
        #[trigger] steps[i],
    ) by {
        lemma_flush_goes_on(before, steps, try_lock, poll, i + 1);
        assert(steps.take(i + 1).last() == steps[i]);
    }
}

/// A flush reports an error exactly where a write polled in it had failed, and reports the
/// error of that write. This is then the last thing that happened in it: no write follows.
pub proof fn law_error_iff_found_failed<R, F, D, E, L, P>(
    before: WriterState<R, F, D>,
    steps: Seq<QueueEvent<F, E>>,
    report: Report<E>,
    try_lock: L,
    poll: P,
) where L: Fn() -> LockAttempt, P: Fn(F) -> TaskPoll<F, E>
    requires
        flush_steps(before, steps, try_lock, poll),
        reply_from(before.queue, steps) == QueueReply::<F, E>::Finish(report),
    ensures
        report matches Progress::Ready(Err(IoError::Other(error))) ==> steps.last()
            == QueueEvent::<F, E>::TaskPolled(TaskPoll::Ready(Err(error))),
        steps.last() matches QueueEvent::TaskPolled(TaskPoll::Ready(Err(error))) ==> report
            == Progress::<Result<(), IoError<E>>>::Ready(Err(IoError::Other(error))),
        forall|i: int| 0 <= i < steps.len() - 1 ==> !found_failed(#[trigger] steps[i]),
{
    assert forall|i: int| 0 <= i < steps.len() - 1 implies !found_failed(#[trigger] steps[i]) by {
        lemma_flush_goes_on(before, steps, try_lock, poll, i + 1);
        assert(steps.take(i + 1).last() == steps[i]);
    }
}

/// Where the lock is free, a flush is pending exactly where it leaves a write behind. That
/// write is the one kept before or one of the bytes that were buffered, was polled and was
/// unfinished, and the next flush polls it first.
pub proof fn law_pending_write_is_kept<R, F, D, E, L, P>(
    before: WriterState<R, F, D>,
    after: WriterState<R, F, D>,
    report: Report<E>,
    try_lock: L,
    poll: P,
) where L: Fn() -> LockAttempt, P: Fn(F) -> TaskPoll<F, E>
    requires
        always_free(try_lock),
        flushes(before, after, report, try_lock, poll),
    ensures
        report is Pending <==> after.queue.task is Some,
        after.queue.task matches Some(kept) ==> {
            &&& exists|task: F|
                write_of_flush(before, task) && #[trigger] call_ensures(
                    poll,
                    (task,),
                    TaskPoll::<F, E>::Pending(kept),
                )
            &&& queue_step(
                after.queue,
                QueueEvent::<F, E>::FlushStarted(LockAttempt::Acquired),
            ).1 == QueueReply::<F, E>::Poll(kept)
        },
{
    let steps = choose|steps: Seq<QueueEvent<F, E>>|
        {
            &&& #[trigger] flush_steps(before, steps, try_lock, poll)
            &&& reply_from(before.queue, steps) == QueueReply::<F, E>::Finish(report)
            &&& after == flushed_to(before, steps)
        };
    law_flush_obeys(before, steps);
    lemma_flush_so_far(before, steps, try_lock, poll);
    if succeeded(report) {
        law_flushed_means_empty(before.queue, steps);
    }
    if report is Pending {
        let earlier = steps.drop_last();
        if let QueueReply::Poll(task) = reply_from(before.queue, earlier) {
            lemma_flush_so_far(before, earlier, try_lock, poll);
            assert(write_of_flush(before, task));
        }
    }
}

/// Where the lock is free and every write polled has finished, a flush succeeds. It then
/// writes everything that was buffered, where anything was, and calls nothing else on the
/// channel.
pub proof fn law_flush_succeeds<R, F, D, E, L, P>(
    before: WriterState<R, F, D>,
    after: WriterState<R, F, D>,
    report: Report<E>,
    try_lock: L,
    poll: P,
) where L: Fn() -> LockAttempt, P: Fn(F) -> TaskPoll<F, E>
    requires
        always_free(try_lock),
        forall|task: F, polled: TaskPoll<F, E>| #[trigger]
            call_ensures(poll, (task,), polled) ==> (polled matches TaskPoll::Ready(Ok(_))),
        flushes(before, after, report, try_lock, poll),
    ensures
        succeeded(report),
        after.queue == empty_queue::<F>(),
        before.queue.buffered.len() == 0 ==> after.calls == before.calls,
        before.queue.buffered.len() > 0 ==> exists|task: F|
            {
                &&& #[trigger] writes_buffered(before, task)
                &&& after.calls == before.calls.push(
                    ChannelCall::Write(before.queue.buffered, task),
                )
            },
{
    let steps = choose|steps: Seq<QueueEvent<F, E>>|
        {
            &&& #[trigger] flush_steps(before, steps, try_lock, poll)
            &&& reply_from(before.queue, steps) == QueueReply::<F, E>::Finish(report)
            &&& after == flushed_to(before, steps)
        };
    law_pending_write_is_kept(before, after, report, try_lock, poll);
    law_error_iff_found_failed(before, steps, report, try_lock, poll);
    law_calls_of_a_flush(before, after, report, try_lock, poll);
    law_flush_obeys(before, steps);
    assert(succeeded(report));
    law_flushed_means_empty(before.queue, steps);
}

/// Where the lock is free, flushing an empty queue succeeds at its only step: it polls no
/// write, and calls nothing on the channel.
pub proof fn law_flushing_nothing<R, F, D, E, L, P>(
    before: WriterState<R, F, D>,
    steps: Seq<QueueEvent<F, E>>,
    try_lock: L,
    poll: P,
) where L: Fn() -> LockAttempt, P: Fn(F) -> TaskPoll<F, E>
    requires
        before.queue == empty_queue::<F>(),
        always_free(try_lock),
        flush_steps(before, steps, try_lock, poll),
    ensures
        steps == seq![QueueEvent::<F, E>::FlushStarted(LockAttempt::Acquired)],
        reply_from(before.queue, steps) == QueueReply::<F, E>::Finish(Progress::Ready(Ok(()))),
        flushed_to(before, steps) == before,
    decreases steps.len(),
{
    if steps.len() > 1 {
        law_flushing_nothing(before, steps.drop_last(), try_lock, poll);
    } else {
        assert(steps.drop_last() =~= Seq::empty());
        assert(steps =~= seq![steps.last()]);
        assert(flush_calls(before, steps.drop_last()) =~= Seq::empty());
        assert(flushed_to(before, steps) =~= before);
    }
}

/// Where the lock is free, a flush of an empty queue succeeds and changes nothing, and no
/// such flush takes more than one step.
pub proof fn law_nothing_to_flush<R, F, D, E, L, P>(
    before: WriterState<R, F, D>,
    after: WriterState<R, F, D>,
    report: Report<E>,
    try_lock: L,
    poll: P,
) where L: Fn() -> LockAttempt, P: Fn(F) -> TaskPoll<F, E>
    requires
        before.queue == empty_queue::<F>(),
        always_free(try_lock),
        flushes(before, after, report, try_lock, poll),
    ensures
        succeeded(report),
        after == before,
        forall|steps: Seq<QueueEvent<F, E>>| #[trigger]
            flush_steps(before, steps, try_lock, poll) ==> steps == seq![
                QueueEvent::<F, E>::FlushStarted(LockAttempt::Acquired),
            ],
{
    assert forall|steps: Seq<QueueEvent<F, E>>| #[trigger]
        flush_steps(before, steps, try_lock, poll) implies steps == seq![
        QueueEvent::<F, E>::FlushStarted(LockAttempt::Acquired),
    ] by {
        law_flushing_nothing(before, steps, try_lock, poll);
    }
    let steps = choose|steps: Seq<QueueEvent<F, E>>|
        {
            &&& #[trigger] flush_steps(before, steps, try_lock, poll)
            &&& reply_from(before.queue, steps) == QueueReply::<F, E>::Finish(report)
            &&& after == flushed_to(before, steps)
        };
    law_flushing_nothing(before, steps, try_lock, poll);
}

/// Where the lock is free, flushing again after a successful flush, with nothing written in
/// between, succeeds again: no write is polled, nothing is called on the channel, and
/// nothing changes.
pub proof fn law_flushing_again<R, F, D, E, L, P, M, N>(
    before: WriterState<R, F, D>,
    middle: WriterState<R, F, D>,
    after: WriterState<R, F, D>,
    first: Report<E>,
    second: Report<E>,
    try_lock: L,
    poll: P,
    try_lock_again: M,
    poll_again: N,
) where
    L: Fn() -> LockAttempt,
    P: Fn(F) -> TaskPoll<F, E>,
    M: Fn() -> LockAttempt,
    N: Fn(F) -> TaskPoll<F, E>,

    requires
        flushes(before, middle, first, try_lock, poll),
        succeeded(first),
        always_free(try_lock_again),
        flushes(middle, after, second, try_lock_again, poll_again),
    ensures
        succeeded(second),
        after == middle,
        forall|steps: Seq<QueueEvent<F, E>>| #[trigger]
            flush_steps(middle, steps, try_lock_again, poll_again) ==> steps == seq![
                QueueEvent::<F, E>::FlushStarted(LockAttempt::Acquired),
            ],
{
    let steps = choose|steps: Seq<QueueEvent<F, E>>|
        {
            &&& #[trigger] flush_steps(before, steps, try_lock, poll)
            &&& reply_from(before.queue, steps) == QueueReply::<F, E>::Finish(first)
            &&& middle == flushed_to(before, steps)
        };
    law_flush_obeys(before, steps);
    law_flushed_means_empty(before.queue, steps);
    law_nothing_to_flush(middle, after, second, try_lock_again, poll_again);
}

/// A flush that reports an error keeps no write: the piece whose write failed is not sent
/// again, and what is buffered is what was before, or nothing where it was written.
pub proof fn law_failed_write_is_given_up<R, F, D, E, L, P>(
    before: WriterState<R, F, D>,
    after: WriterState<R, F, D>,
    report: Report<E>,
    try_lock: L,
    poll: P,
) where L: Fn() -> LockAttempt, P: Fn(F) -> TaskPoll<F, E>
    requires
        flushes(before, after, report, try_lock, poll),
        report matches Progress::Ready(Err(_)),
    ensures
        after.queue.task is None,
        after.calls == before.calls ==> after.queue.buffered == before.queue.buffered,
        after.calls != before.calls ==> after.queue.buffered.len() == 0,
{
    let steps = choose|steps: Seq<QueueEvent<F, E>>|
        {
            &&& #[trigger] flush_steps(before, steps, try_lock, poll)
            &&& reply_from(before.queue, steps) == QueueReply::<F, E>::Finish(report)
            &&& after == flushed_to(before, steps)
        };
    lemma_flush_so_far(before, steps, try_lock, poll);
    law_calls_of_a_flush(before, after, report, try_lock, poll);
}

/// A failed write is reported once. Where the lock is free and nothing is buffered, the
/// flush after one that reported an error succeeds: no write is polled, nothing is called on
/// the channel, and nothing changes.
pub proof fn law_failed_write_is_reported_once<R, F, D, E, L, P, M, N>(
    before: WriterState<R, F, D>,
    middle: WriterState<R, F, D>,
    after: WriterState<R, F, D>,
    first: Report<E>,
    second: Report<E>,
    try_lock: L,
    poll: P,
    try_lock_again: M,
    poll_again: N,
) where
    L: Fn() -> LockAttempt,
    P: Fn(F) -> TaskPoll<F, E>,
    M: Fn() -> LockAttempt,
    N: Fn(F) -> TaskPoll<F, E>,

    requires
        flushes(before, middle, first, try_lock, poll),
        first matches Progress::Ready(Err(_)),
        middle.queue.buffered.len() == 0,
        always_free(try_lock_again),
        flushes(middle, after, second, try_lock_again, poll_again),
    ensures
        succeeded(second),
        after == middle,
        forall|steps: Seq<QueueEvent<F, E>>| #[trigger]
            flush_steps(middle, steps, try_lock_again, poll_again) ==> steps == seq![
                QueueEvent::<F, E>::FlushStarted(LockAttempt::Acquired),
            ],
{
    law_failed_write_is_given_up(before, middle, first, try_lock, poll);
    assert(middle.queue =~= empty_queue::<F>());
    law_nothing_to_flush(middle, after, second, try_lock_again, poll_again);
}

/// A flush whose attempts at the lock can only find it free never finds it held.
pub proof fn law_free_lock_is_never_held<R, F, D, E, L, P>(
    before: WriterState<R, F, D>,
    steps: Seq<QueueEvent<F, E>>,
    try_lock: L,
    poll: P,
) where L: Fn() -> LockAttempt, P: Fn(F) -> TaskPoll<F, E>
    requires
        always_free(try_lock),
        flush_steps(before, steps, try_lock, poll),
    ensures
        lock_free(steps),
    decreases steps.len(),
{
    let earlier = steps.drop_last();
    if steps.len() > 1 {
        law_free_lock_is_never_held(before, earlier, try_lock, poll);
    }
    assert forall|i: int| 0 <= i < steps.len() implies !finds_lock_held(#[trigger] steps[i]) by {
        if i < earlier.len() {
            assert(earlier[i] == steps[i]);
        } else {
            assert(steps[i] == steps.last());
        }
    }
}

/// A close request lives from one poll to the next until it has ended. A poll that leaves it
/// unfinished is reported as pending and leaves it behind; the next shutdown that gets so far
/// polls that one and no other, and does not ask the channel to close again.
pub proof fn law_close_request_is_carried_on<R, F, D, E, Q>(
    before: WriterState<R, F, D>,
    after: WriterState<R, F, D>,
    report: Report<E>,
    poll_close: Q,
) where Q: Fn(D) -> TaskPoll<D, E>
    requires
        closes(before, after, report, poll_close),
    ensures
        report is Pending <==> after.close is Some,
        after.close matches Some(unfinished) ==> forall|close: D| #[trigger]
            carries_on(after, close) <==> close == unfinished,
        before.close is Some ==> after.calls == before.calls,
        before.close is None ==> exists|close: D|
            after.calls == #[trigger] before.calls.push(ChannelCall::Close(close)),
{
    let (close, polled) = choose|close: D, polled: TaskPoll<D, E>|
        {
            &&& carries_on(before, close)
            &&& #[trigger] call_ensures(poll_close, (close,), polled)
            &&& report == reported(polled)
            &&& after == close_polled_to(closing(before, close), polled)
        };
    if before.close is Some {
        assert(after.calls =~= before.calls);
    } else {
        assert(after.calls =~= before.calls.push(ChannelCall::Close(close)));
    }
}

} // verus!
