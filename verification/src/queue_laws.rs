//! What holds of a queue over everything that happens to it.

use vstd::prelude::*;

use crate::outcome::{IoError, LockAttempt, Progress, TaskPoll};
use crate::queue::{empty_queue, QueueEvent, QueueReply, QueueState};
use crate::queue_run::{
    lemma_flush_under_way, next_phase, obeys, reply_from, state_from, Phase,
};

verus! {

/// The state of a new queue after these events, in order.
pub open spec fn state_after<F, E>(events: Seq<QueueEvent<F, E>>) -> QueueState<F> {
    state_from(empty_queue(), events)
}

/// What the last of these events asks for, on a queue that was new before them.
pub open spec fn reply_after<F, E>(events: Seq<QueueEvent<F, E>>) -> QueueReply<F, E> {
    reply_from(empty_queue(), events)
}

/// Whether these events are all that ever happened to a queue whose caller always does
/// what it asks for.
pub open spec fn session<F, E>(events: Seq<QueueEvent<F, E>>) -> bool {
    obeys(empty_queue(), events)
}

/// All the bytes handed in by these events, in order.
pub open spec fn bytes_pushed<F, E>(events: Seq<QueueEvent<F, E>>) -> Seq<u8>
    decreases events.len(),
{
    if events.len() == 0 {
        Seq::empty()
    } else {
        match events.last() {
            QueueEvent::Push(bytes) => bytes_pushed(events.drop_last()) + bytes,
            _ => bytes_pushed(events.drop_last()),
        }
    }
}

/// The pieces that the queue asked to have written during these events, in order.
pub open spec fn chunks_written<F, E>(events: Seq<QueueEvent<F, E>>) -> Seq<Seq<u8>>
    decreases events.len(),
{
    if events.len() == 0 {
        Seq::empty()
    } else {
        match reply_after(events) {
            QueueReply::Write(chunk) => chunks_written(events.drop_last()).push(chunk),
            _ => chunks_written(events.drop_last()),
        }
    }
}

/// The number of writes that finished during these events.
pub open spec fn writes_finished<F, E>(events: Seq<QueueEvent<F, E>>) -> nat
    decreases events.len(),
{
    if events.len() == 0 {
        0
    } else {
        match events.last() {
            QueueEvent::TaskPolled(TaskPoll::Ready(Ok(()))) => writes_finished(events.drop_last())
                + 1,
            _ => writes_finished(events.drop_last()),
        }
    }
}

/// The number of writes that failed during these events.
pub open spec fn writes_failed<F, E>(events: Seq<QueueEvent<F, E>>) -> nat
    decreases events.len(),
{
    if events.len() == 0 {
        0
    } else {
        match events.last() {
            QueueEvent::TaskPolled(TaskPoll::Ready(Err(_))) => writes_failed(events.drop_last())
                + 1,
            _ => writes_failed(events.drop_last()),
        }
    }
}

/// The number of writes that were dropped during these events, because the lock was held.
pub open spec fn writes_dropped<F, E>(events: Seq<QueueEvent<F, E>>) -> nat
    decreases events.len(),
{
    if events.len() == 0 {
        0
    } else {
        match events.last() {
            QueueEvent::TaskStored(_, LockAttempt::Held) => writes_dropped(events.drop_last()) + 1,
            _ => writes_dropped(events.drop_last()),
        }
    }
}

/// The number of times that a flush reported an error during these events.
pub open spec fn errors_reported<F, E>(events: Seq<QueueEvent<F, E>>) -> nat
    decreases events.len(),
{
    if events.len() == 0 {
        0
    } else {
        match reply_after(events) {
            QueueReply::Finish(Progress::Ready(Err(_))) => errors_reported(events.drop_last()) + 1,
            _ => errors_reported(events.drop_last()),
        }
    }
}

/// Whether every write asked for during these events has finished or failed, and has
/// finished where no error was ever reported.
pub open spec fn all_resolved<F, E>(events: Seq<QueueEvent<F, E>>) -> bool {
    &&& chunks_written(events).len() == writes_finished(events) + writes_failed(events)
    &&& errors_reported(events) == 0 ==> chunks_written(events).len() == writes_finished(events)
}

/// Whether the lock was held by somebody else when it was tried.
pub open spec fn finds_lock_held<F, E>(event: QueueEvent<F, E>) -> bool {
    match event {
        QueueEvent::FlushStarted(lock) => lock is Held,
        QueueEvent::TaskStored(_, lock) => lock is Held,
        _ => false,
    }
}

/// Whether the lock was free each time that it was tried during these events.
pub open spec fn lock_free<F, E>(events: Seq<QueueEvent<F, E>>) -> bool {
    forall|i: int| 0 <= i < events.len() ==> !finds_lock_held(#[trigger] events[i])
}

/// The number of writes that exist: kept in the queue, or out with the caller.
pub open spec fn writes_alive<F>(state: QueueState<F>, phase: Phase<F>) -> nat {
    (if state.task is Some { 1nat } else { 0nat }) + (if phase is Polling || phase is Writing {
        1nat
    } else {
        0nat
    })
}

/// No byte is lost, doubled or moved: the bytes handed in are those of the pieces asked
/// to be written, one after the other, followed by those still buffered.
pub proof fn law_bytes_conserved<F, E>(events: Seq<QueueEvent<F, E>>)
    ensures
        bytes_pushed(events) == chunks_written(events).flatten() + state_after(events).buffered,
    decreases events.len(),
{
    if events.len() > 0 {
        let before = events.drop_last();
        law_bytes_conserved(before);
        if let QueueReply::Write(chunk) = reply_after(events) {
            chunks_written(before).lemma_flatten_push(chunk);
        }
    }
    assert(bytes_pushed(events) =~= chunks_written(events).flatten() + state_after(
        events,
    ).buffered);
}

/// No piece asked to be written is empty: an empty piece means the end of the stream to
/// whoever reads it.
pub proof fn law_chunks_not_empty<F, E>(events: Seq<QueueEvent<F, E>>)
    ensures
        forall|i: int|
            0 <= i < chunks_written(events).len() ==> (#[trigger] chunks_written(events)[i]).len()
                > 0,
    decreases events.len(),
{
    if events.len() > 0 {
        let before = events.drop_last();
        law_chunks_not_empty(before);
        assert forall|i: int| 0 <= i < chunks_written(events).len() implies (
        #[trigger] chunks_written(events)[i]).len() > 0 by {
            if i < chunks_written(before).len() {
                assert(chunks_written(events)[i] == chunks_written(before)[i]);
            }
        }
    }
}

/// Writes are made one after the other: at no time does more than one exist, and one is
/// asked for only when there is none.
pub proof fn law_one_write_at_a_time<F, E>(events: Seq<QueueEvent<F, E>>)
    requires
        session(events),
    ensures
        writes_alive(state_after(events), next_phase(reply_after(events))) <= 1,
        reply_after(events) is Write ==> state_after(events).task is None,
    decreases events.len(),
{
    if events.len() > 0 {
        law_one_write_at_a_time(events.drop_last());
        lemma_flush_under_way(empty_queue(), events.drop_last());
    }
}

/// Every write asked for still exists, has finished, has failed, or was dropped because the
/// lock was held.
pub proof fn law_writes_accounted<F, E>(events: Seq<QueueEvent<F, E>>)
    requires
        session(events),
    ensures
        chunks_written(events).len() == writes_finished(events) + writes_failed(events)
            + writes_dropped(events) + writes_alive(
            state_after(events),
            next_phase(reply_after(events)),
        ),
    decreases events.len(),
{
    if events.len() > 0 {
        law_writes_accounted(events.drop_last());
        law_one_write_at_a_time(events.drop_last());
        lemma_flush_under_way(empty_queue(), events.drop_last());
    }
}

/// A flush that reports success has had everything written: nothing is buffered, no
/// write exists, the pieces asked to be written hold all the bytes handed in, and each of
/// their writes has finished unless it was reported to fail or was dropped.
pub proof fn law_flushed_means_written<F, E>(events: Seq<QueueEvent<F, E>>)
    requires
        session(events),
        reply_after(events) == QueueReply::<F, E>::Finish(Progress::Ready(Ok(()))),
    ensures
        state_after(events) == empty_queue::<F>(),
        chunks_written(events).flatten() == bytes_pushed(events),
        chunks_written(events).len() == writes_finished(events) + writes_failed(events)
            + writes_dropped(events),
{
    law_bytes_conserved(events);
    law_writes_accounted(events);
    law_one_write_at_a_time(events.drop_last());
    assert(state_after(events) =~= empty_queue::<F>());
}

/// Each write that fails is reported, and reported once.
pub proof fn law_failures_are_reported<F, E>(events: Seq<QueueEvent<F, E>>)
    ensures
        errors_reported(events) == writes_failed(events),
    decreases events.len(),
{
    if events.len() > 0 {
        law_failures_are_reported(events.drop_last());
    }
}

/// Where the lock is free each time that it is tried, no write is dropped.
pub proof fn law_free_lock_drops_nothing<F, E>(events: Seq<QueueEvent<F, E>>)
    requires
        lock_free(events),
    ensures
        writes_dropped(events) == 0,
    decreases events.len(),
{
    if events.len() > 0 {
        let before = events.drop_last();
        assert(lock_free(before)) by {
            assert forall|i: int| 0 <= i < before.len() implies !finds_lock_held(
                #[trigger] before[i],
            ) by {
                assert(before[i] == events[i]);
            }
        }
        law_free_lock_drops_nothing(before);
        assert(!finds_lock_held(events[events.len() - 1]));
    }
}

/// Where the lock is free each time that it is tried, a flush that reports success has had
/// every write resolved: each has finished or failed, and where no error was ever reported
/// each has finished.
pub proof fn law_flushed_means_resolved<F, E>(events: Seq<QueueEvent<F, E>>)
    requires
        session(events),
        lock_free(events),
        reply_after(events) == QueueReply::<F, E>::Finish(Progress::Ready(Ok(()))),
    ensures
        all_resolved(events),
{
    law_flushed_means_written(events);
    law_free_lock_drops_nothing(events);
    law_failures_are_reported(events);
}

/// A write that has ended is gone: it is not kept, and the queue does not ask for a poll of
/// it again.
pub proof fn law_ended_write_is_gone<F, E>(events: Seq<QueueEvent<F, E>>)
    requires
        session(events),
        events.len() > 0,
        events.last() matches QueueEvent::TaskPolled(TaskPoll::Ready(_)),
    ensures
        state_after(events).task is None,
        !(next_phase(reply_after(events)) is Polling),
{
    lemma_flush_under_way(empty_queue(), events.drop_last());
}

/// While no write ends, those that ended before are all, and pieces asked to be written do
/// not become fewer.
proof fn lemma_none_ends<F, E>(events: Seq<QueueEvent<F, E>>, i: int)
    requires
        0 <= i <= events.len(),
        forall|k: int|
            i <= k < events.len() ==> !(#[trigger] events[k] matches QueueEvent::TaskPolled(
                TaskPoll::Ready(_),
            )),
    ensures
        writes_finished(events) == writes_finished(events.take(i)),
        writes_failed(events) == writes_failed(events.take(i)),
        chunks_written(events).len() >= chunks_written(events.take(i)).len(),
    decreases events.len(),
{
    if i == events.len() {
        assert(events.take(i) =~= events);
    } else {
        let before = events.drop_last();
        assert forall|k: int| i <= k < before.len() implies !(
        #[trigger] before[k] matches QueueEvent::TaskPolled(TaskPoll::Ready(_))) by {
            assert(before[k] == events[k]);
        }
        lemma_none_ends(before, i);
        assert(before.take(i) =~= events.take(i));
        assert(!(events[events.len() - 1] matches QueueEvent::TaskPolled(TaskPoll::Ready(_))));
    }
}

/// What happened first to a queue was a session as well.
proof fn lemma_session_so_far<F, E>(events: Seq<QueueEvent<F, E>>, i: int)
    requires
        session(events),
        0 <= i <= events.len(),
    ensures
        session(events.take(i)),
    decreases events.len(),
{
    if i == events.len() {
        assert(events.take(i) =~= events);
    } else {
        lemma_session_so_far(events.drop_last(), i);
        assert(events.drop_last().take(i) =~= events.take(i));
    }
}

/// Where the lock is free each time that it is tried, a write is asked for only after the
/// last one was ready: between any two writes asked for, one was polled and had ended.
pub proof fn law_write_waits_for_the_last<F, E>(events: Seq<QueueEvent<F, E>>, i: int, j: int)
    requires
        session(events),
        lock_free(events),
        0 < i < j <= events.len(),
        reply_after(events.take(i)) is Write,
        reply_after(events.take(j)) is Write,
    ensures
        exists|k: int|
            i <= k < j && (#[trigger] events[k] matches QueueEvent::TaskPolled(TaskPoll::Ready(_))),
{
    let first = events.take(i);
    let second = events.take(j);
    if forall|k: int|
        i <= k < j ==> !(#[trigger] events[k] matches QueueEvent::TaskPolled(TaskPoll::Ready(_))) {
        let between = second.drop_last();
        assert(between.take(i) =~= first);
        assert forall|k: int| i <= k < between.len() implies !(
        #[trigger] between[k] matches QueueEvent::TaskPolled(TaskPoll::Ready(_))) by {
            assert(between[k] == events[k]);
        }
        lemma_none_ends(between, i);
        assert(second.last() == events[j - 1]);
        lemma_session_so_far(events, i);
        lemma_session_so_far(events, j);
        assert(lock_free(first)) by {
            assert forall|k: int| 0 <= k < first.len() implies !finds_lock_held(
                #[trigger] first[k],
            ) by {
                assert(first[k] == events[k]);
            }
        }
        assert(lock_free(second)) by {
            assert forall|k: int| 0 <= k < second.len() implies !finds_lock_held(
                #[trigger] second[k],
            ) by {
                assert(second[k] == events[k]);
            }
        }
        law_free_lock_drops_nothing(first);
        law_free_lock_drops_nothing(second);
        law_writes_accounted(first);
        law_writes_accounted(second);
        law_one_write_at_a_time(second);
    }
}

/// A write that fails costs no byte that is still buffered: the next flush asks for a
/// write of exactly those.
pub proof fn law_failed_write_keeps_the_rest<F, E>(
    events: Seq<QueueEvent<F, E>>,
    error: E,
)
    requires
        session(events),
        next_phase(reply_after(events)) is Polling,
    ensures
        ({
            let failed = events.push(QueueEvent::TaskPolled(TaskPoll::Ready(Err(error))));
            let again = failed.push(QueueEvent::FlushStarted(LockAttempt::Acquired));
            &&& session(again)
            &&& reply_after(failed) == QueueReply::<F, E>::Finish(
                Progress::Ready(Err(IoError::Other(error))),
            )
            &&& state_after(failed) == state_after(events)
            &&& state_after(events).buffered.len() > 0 ==> reply_after(again) == QueueReply::<
                F,
                E,
            >::Write(state_after(events).buffered)
        }),
{
    law_one_write_at_a_time(events);
    let failed = events.push(QueueEvent::TaskPolled(TaskPoll::Ready(Err(error))));
    let again = failed.push(QueueEvent::FlushStarted(LockAttempt::Acquired));
    assert(failed.drop_last() =~= events);
    assert(again.drop_last() =~= failed);
    assert(session(failed));
    assert(state_after(failed) == state_after(events));
    assert(session(again));
}

/// Flushing again after a successful flush succeeds at once and asks for nothing.
pub proof fn law_flush_is_idempotent<F, E>(events: Seq<QueueEvent<F, E>>)
    requires
        session(events),
        reply_after(events) == QueueReply::<F, E>::Finish(Progress::Ready(Ok(()))),
    ensures
        ({
            let again = events.push(QueueEvent::FlushStarted(LockAttempt::Acquired));
            &&& session(again)
            &&& reply_after(again) == reply_after(events)
            &&& state_after(again) == state_after(events)
        }),
{
    law_flushed_means_written(events);
    let again = events.push(QueueEvent::FlushStarted(LockAttempt::Acquired));
    assert(again.drop_last() =~= events);
}

} // verus!
