//! What holds of a channel's writing end, and of the calls made on its channel, over
//! everything that happens to it.

use vstd::prelude::*;

use crate::flush::{
    carries_on, close_calls, close_polled_to, closes_after, closing, flush_calls, flush_course,
    flush_steps, flushed_to, flushes, law_flush_obeys, shuts_down, WriterState,
};
use crate::host::{Calls, ChannelCall};
use crate::outcome::{reported, succeeded, LockAttempt, Report, TaskPoll};
use crate::queue::{empty_queue, pushed, QueueEvent, QueueReply};
use crate::queue_laws::{
    all_resolved, bytes_pushed, chunks_written, law_bytes_conserved, law_chunks_not_empty,
    law_flushed_means_resolved, law_flushed_means_written, law_free_lock_drops_nothing,
    law_writes_accounted, lock_free, reply_after, session, state_after, writes_failed,
    writes_finished,
};
use crate::queue_run::{law_runs_compose, next_phase, obeys, reply_from, state_from};
use crate::read_laws::{bytes_received, delivered, law_chunks_arrive, stream_of};

verus! {

/// What is done to a writing end, with everything that happens meanwhile.
pub enum WriterOp<F, D, E> {
    /// These bytes are written.
    Write(Seq<u8>),
    /// It is flushed, in these steps.
    Flush(Seq<QueueEvent<F, E>>),
    /// It is shut down: flushed in these steps and, where that succeeds, its close request is
    /// polled with this outcome.
    Shutdown(Seq<QueueEvent<F, E>>, Option<(D, TaskPoll<D, E>)>),
}

/// Whether this can be done to a writing end in this state.
pub open spec fn allows<R, F, D, E>(before: WriterState<R, F, D>, op: WriterOp<F, D, E>) -> bool {
    match op {
        WriterOp::Write(_) => true,
        WriterOp::Flush(steps) => flush_course(before, steps) && reply_from(
            before.queue,
            steps,
        ) is Finish,
        WriterOp::Shutdown(steps, close) => flush_course(before, steps) && (reply_from(
            before.queue,
            steps,
        ) matches QueueReply::Finish(flushed) && match close {
            Some((request, _)) => succeeded(flushed) && carries_on(
                flushed_to(before, steps),
                request,
            ),
            None => !succeeded(flushed),
        }),
    }
}

/// The state that this leads to.
pub open spec fn done_to<R, F, D, E>(
    before: WriterState<R, F, D>,
    op: WriterOp<F, D, E>,
) -> WriterState<R, F, D> {
    match op {
        WriterOp::Write(bytes) => WriterState { queue: pushed(before.queue, bytes), ..before },
        WriterOp::Flush(steps) => flushed_to(before, steps),
        WriterOp::Shutdown(steps, Some((request, polled))) => close_polled_to(
            closing(flushed_to(before, steps), request),
            polled,
        ),
        WriterOp::Shutdown(steps, None) => flushed_to(before, steps),
    }
}

/// The calls that this makes on the channel, in order.
pub open spec fn op_calls<R, F, D, E>(
    before: WriterState<R, F, D>,
    op: WriterOp<F, D, E>,
) -> Calls<R, F, D> {
    match op {
        WriterOp::Write(_) => Seq::empty(),
        WriterOp::Flush(steps) => flush_calls(before, steps),
        WriterOp::Shutdown(steps, Some((request, _))) => flush_calls(before, steps) + close_calls(
            flushed_to(before, steps),
            request,
        ),
        WriterOp::Shutdown(steps, None) => flush_calls(before, steps),
    }
}

/// What this is to the queue.
pub open spec fn op_events<F, D, E>(op: WriterOp<F, D, E>) -> Seq<QueueEvent<F, E>> {
    match op {
        WriterOp::Write(bytes) => seq![QueueEvent::Push(bytes)],
        WriterOp::Flush(steps) => steps,
        WriterOp::Shutdown(steps, _) => steps,
    }
}

/// The state after all of this was done, in order.
pub open spec fn writer_after<R, F, D, E>(
    start: WriterState<R, F, D>,
    ops: Seq<WriterOp<F, D, E>>,
) -> WriterState<R, F, D>
    decreases ops.len(),
{
    if ops.len() == 0 {
        start
    } else {
        done_to(writer_after(start, ops.drop_last()), ops.last())
    }
}

/// Whether all of this can be done to a writing end, in order.
pub open spec fn writer_run<R, F, D, E>(
    start: WriterState<R, F, D>,
    ops: Seq<WriterOp<F, D, E>>,
) -> bool
    decreases ops.len(),
{
    ops.len() == 0 || (writer_run(start, ops.drop_last()) && allows(
        writer_after(start, ops.drop_last()),
        ops.last(),
    ))
}

/// All the calls that this makes on the channel, in order.
pub open spec fn calls_made<R, F, D, E>(
    start: WriterState<R, F, D>,
    ops: Seq<WriterOp<F, D, E>>,
) -> Calls<R, F, D>
    decreases ops.len(),
{
    if ops.len() == 0 {
        Seq::empty()
    } else {
        calls_made(start, ops.drop_last()) + op_calls(
            writer_after(start, ops.drop_last()),
            ops.last(),
        )
    }
}

/// All that happens to the queue, in order.
pub open spec fn events_of<F, D, E>(ops: Seq<WriterOp<F, D, E>>) -> Seq<QueueEvent<F, E>>
    decreases ops.len(),
{
    if ops.len() == 0 {
        Seq::empty()
    } else {
        events_of(ops.drop_last()) + op_events(ops.last())
    }
}

/// All the bytes written to the writing end, in order.
pub open spec fn bytes_accepted<F, D, E>(ops: Seq<WriterOp<F, D, E>>) -> Seq<u8>
    decreases ops.len(),
{
    if ops.len() == 0 {
        Seq::empty()
    } else {
        match ops.last() {
            WriterOp::Write(bytes) => bytes_accepted(ops.drop_last()) + bytes,
            _ => bytes_accepted(ops.drop_last()),
        }
    }
}

/// The pieces that these calls write to the channel, in order.
pub open spec fn pieces<R, F, D>(calls: Calls<R, F, D>) -> Seq<Seq<u8>>
    decreases calls.len(),
{
    if calls.len() == 0 {
        Seq::empty()
    } else {
        match calls.last() {
            ChannelCall::Write(bytes, _) => pieces(calls.drop_last()).push(bytes),
            _ => pieces(calls.drop_last()),
        }
    }
}

/// The number of times that these calls ask the channel to close.
pub open spec fn closes_asked<R, F, D>(calls: Calls<R, F, D>) -> nat
    decreases calls.len(),
{
    if calls.len() == 0 {
        0
    } else if calls.last() is Close {
        closes_asked(calls.drop_last()) + 1
    } else {
        closes_asked(calls.drop_last())
    }
}

/// The number of close requests that ended.
pub open spec fn closes_ended<F, D, E>(ops: Seq<WriterOp<F, D, E>>) -> nat
    decreases ops.len(),
{
    if ops.len() == 0 {
        0
    } else {
        match ops.last() {
            WriterOp::Shutdown(_, Some((_, TaskPoll::Ready(_)))) => closes_ended(ops.drop_last())
                + 1,
            _ => closes_ended(ops.drop_last()),
        }
    }
}

/// Pieces and close requests of calls one after the other.
proof fn lemma_calls_compose<R, F, D>(
    earlier: Calls<R, F, D>,
    later: Calls<R, F, D>,
)
    ensures
        pieces(earlier + later) == pieces(earlier) + pieces(later),
        closes_asked(earlier + later) == closes_asked(earlier) + closes_asked(later),
    decreases later.len(),
{
    let all = earlier + later;
    if later.len() == 0 {
        assert(all =~= earlier);
    } else {
        lemma_calls_compose(earlier, later.drop_last());
        assert(all.drop_last() =~= earlier + later.drop_last());
    }
    assert(pieces(all) =~= pieces(earlier) + pieces(later));
}

/// A flush asks nobody to close, and what it writes are the pieces asked for in it.
proof fn lemma_pieces_of_flush<R, F, D, E>(
    before: WriterState<R, F, D>,
    past: Seq<QueueEvent<F, E>>,
    steps: Seq<QueueEvent<F, E>>,
)
    requires
        session(past),
        next_phase(reply_after(past)) is Idle,
        before.queue == state_after(past),
        flush_course(before, steps),
    ensures
        chunks_written(past + steps) == chunks_written(past) + pieces(flush_calls(before, steps))
            + (match reply_from(before.queue, steps) {
            QueueReply::Write(chunk) => seq![chunk],
            _ => Seq::empty(),
        }),
        bytes_pushed(past + steps) == bytes_pushed(past),
        closes_asked(flush_calls(before, steps)) == 0,
    decreases steps.len(),
{
    let all = past + steps;
    let earlier = steps.drop_last();
    law_flush_obeys(before, steps);
    law_runs_compose(empty_queue(), past, steps);
    assert(all.drop_last() =~= past + earlier);
    if steps.len() > 1 {
        lemma_pieces_of_flush(before, past, earlier);
        let made = flush_calls(before, steps);
        if let QueueReply::Write(chunk) = reply_from(before.queue, earlier) {
            if let QueueEvent::TaskStored(task, _) = steps.last() {
                assert(made.drop_last() =~= flush_calls(before, earlier));
            }
        }
    } else {
        assert(earlier =~= Seq::empty());
        assert(all.drop_last() =~= past);
        assert(flush_calls(before, earlier) =~= Seq::empty());
    }
    assert(chunks_written(all) =~= chunks_written(past) + pieces(flush_calls(before, steps)) + (
    match reply_from(before.queue, steps) {
        QueueReply::Write(chunk) => seq![chunk],
        _ => Seq::empty(),
    }));
}

/// Whatever is done to a new writing end, in whatever order, its queue sees a session, and
/// what the queue asks to have written is what is written: the calls made on the channel
/// are its pieces, one call for each and in order, besides the close requests.
pub proof fn law_run_is_a_session<R, F, D, E>(
    start: WriterState<R, F, D>,
    ops: Seq<WriterOp<F, D, E>>,
)
    requires
        start.queue == empty_queue::<F>(),
        writer_run(start, ops),
    ensures
        session(events_of(ops)),
        next_phase(reply_after(events_of(ops))) is Idle,
        state_after(events_of(ops)) == writer_after(start, ops).queue,
        bytes_pushed(events_of(ops)) == bytes_accepted(ops),
        pieces(calls_made(start, ops)) == chunks_written(events_of(ops)),
        writer_after(start, ops).calls == start.calls + calls_made(start, ops),
    decreases ops.len(),
{
    if ops.len() == 0 {
        assert(start.calls + calls_made(start, ops) =~= start.calls);
    } else {
        let earlier = ops.drop_last();
        let before = writer_after(start, earlier);
        let past = events_of(earlier);
        let steps = op_events(ops.last());
        law_run_is_a_session(start, earlier);
        lemma_calls_compose(calls_made(start, earlier), op_calls(before, ops.last()));
        match ops.last() {
            WriterOp::Write(bytes) => {
                let one = seq![QueueEvent::<F, E>::Push(bytes)];
                assert(one.drop_last() =~= Seq::empty());
                assert(obeys(before.queue, one.drop_last()));
                assert(obeys(before.queue, one));
                law_runs_compose(empty_queue(), past, one);
                assert((past + one).drop_last() =~= past);
                assert(state_from(before.queue, one) == pushed(before.queue, bytes));
            },
            WriterOp::Flush(steps) => {
                lemma_run_goes_on(before, past, steps);
            },
            WriterOp::Shutdown(steps, close) => {
                lemma_run_goes_on(before, past, steps);
                if let Some((request, _)) = close {
                    let requests = close_calls(flushed_to(before, steps), request);
                    lemma_calls_compose(flush_calls(before, steps), requests);
                    lemma_close_writes_nothing(flushed_to(before, steps), request);
                }
            },
        }
        assert(pieces(calls_made(start, ops)) =~= chunks_written(events_of(ops)));
        assert(writer_after(start, ops).calls =~= start.calls + calls_made(start, ops));
    }
}

/// A flush as part of a run.
proof fn lemma_run_goes_on<R, F, D, E>(
    before: WriterState<R, F, D>,
    past: Seq<QueueEvent<F, E>>,
    steps: Seq<QueueEvent<F, E>>,
)
    requires
        session(past),
        next_phase(reply_after(past)) is Idle,
        before.queue == state_after(past),
        flush_course(before, steps),
        reply_from(before.queue, steps) is Finish,
    ensures
        session(past + steps),
        state_after(past + steps) == state_from(before.queue, steps),
        reply_after(past + steps) == reply_from(before.queue, steps),
        bytes_pushed(past + steps) == bytes_pushed(past),
        chunks_written(past + steps) == chunks_written(past) + pieces(flush_calls(before, steps)),
        closes_asked(flush_calls(before, steps)) == 0,
{
    law_flush_obeys(before, steps);
    law_runs_compose(empty_queue(), past, steps);
    lemma_pieces_of_flush(before, past, steps);
    assert(chunks_written(past + steps) =~= chunks_written(past) + pieces(
        flush_calls(before, steps),
    ));
}

/// A close request writes nothing.
proof fn lemma_close_writes_nothing<R, F, D>(before: WriterState<R, F, D>, close: D)
    ensures
        pieces(close_calls(before, close)).len() == 0,
        closes_asked(close_calls(before, close)) == (if before.close is Some {
            0nat
        } else {
            1nat
        }),
{
    let requests = close_calls(before, close);
    if before.close is None {
        assert(requests.drop_last() =~= Seq::empty());
        assert(pieces(requests.drop_last()) =~= Seq::empty());
        assert(closes_asked(requests.drop_last()) == 0);
    }
}

/// No byte is lost, doubled or moved on its way to the channel: whatever is done to a new
/// writing end, and however its writes turn out, the bytes of the calls that write to the
/// channel, one after the other, and then those still buffered are the bytes accepted.
pub proof fn law_calls_carry_every_byte<R, F, D, E>(
    start: WriterState<R, F, D>,
    ops: Seq<WriterOp<F, D, E>>,
)
    requires
        start.queue == empty_queue::<F>(),
        writer_run(start, ops),
    ensures
        writer_after(start, ops).calls == start.calls + calls_made(start, ops),
        pieces(calls_made(start, ops)).flatten() + writer_after(start, ops).queue.buffered
            == bytes_accepted(ops),
{
    law_run_is_a_session(start, ops);
    law_bytes_conserved(events_of(ops));
}

/// Where the pieces of some calls are not empty, none of the calls writes an empty chunk.
proof fn lemma_writes_not_empty<R, F, D>(calls: Calls<R, F, D>)
    requires
        forall|i: int| 0 <= i < pieces(calls).len() ==> (#[trigger] pieces(calls)[i]).len() > 0,
    ensures
        forall|i: int|
            0 <= i < calls.len() ==> (#[trigger] calls[i] matches ChannelCall::Write(bytes, _)
                ==> bytes.len() > 0),
    decreases calls.len(),
{
    if calls.len() > 0 {
        let earlier = calls.drop_last();
        assert forall|i: int| 0 <= i < pieces(earlier).len() implies (
        #[trigger] pieces(earlier)[i]).len() > 0 by {
            assert(pieces(calls)[i] == pieces(earlier)[i]);
        }
        lemma_writes_not_empty(earlier);
        if let ChannelCall::Write(bytes, _) = calls.last() {
            assert(pieces(calls)[pieces(earlier).len() as int] == bytes);
        }
        assert forall|i: int| 0 <= i < calls.len() implies (
        #[trigger] calls[i] matches ChannelCall::Write(bytes, _) ==> bytes.len() > 0) by {
            if i < earlier.len() {
                assert(calls[i] == earlier[i]);
            }
        }
    }
}

/// No call writes an empty chunk to the channel: that would end the stream of whoever reads
/// at the other end.
pub proof fn law_no_call_writes_an_empty_chunk<R, F, D, E>(
    start: WriterState<R, F, D>,
    ops: Seq<WriterOp<F, D, E>>,
)
    requires
        start.queue == empty_queue::<F>(),
        writer_run(start, ops),
    ensures
        forall|i: int|
            0 <= i < calls_made(start, ops).len() ==> (#[trigger] calls_made(
                start,
                ops,
            )[i] matches ChannelCall::Write(bytes, _) ==> bytes.len() > 0),
{
    law_run_is_a_session(start, ops);
    law_chunks_not_empty(events_of(ops));
    lemma_writes_not_empty(calls_made(start, ops));
}

/// A flush only writes.
proof fn lemma_flush_only_writes<R, F, D, E>(
    before: WriterState<R, F, D>,
    steps: Seq<QueueEvent<F, E>>,
)
    ensures
        forall|i: int|
            0 <= i < flush_calls(before, steps).len() ==> (#[trigger] flush_calls(
                before,
                steps,
            )[i]) is Write,
    decreases steps.len(),
{
    if steps.len() > 0 {
        lemma_flush_only_writes(before, steps.drop_last());
    }
}

/// Whatever is done to a writing end, it writes to its channel and asks it to close, and
/// calls nothing else on it.
pub proof fn law_writer_only_writes_and_closes<R, F, D, E>(
    start: WriterState<R, F, D>,
    ops: Seq<WriterOp<F, D, E>>,
)
    ensures
        forall|i: int|
            0 <= i < calls_made(start, ops).len() ==> !((#[trigger] calls_made(
                start,
                ops,
            )[i]) is Read),
    decreases ops.len(),
{
    if ops.len() > 0 {
        let earlier = ops.drop_last();
        let before = writer_after(start, earlier);
        law_writer_only_writes_and_closes(start, earlier);
        match ops.last() {
            WriterOp::Write(_) => {},
            WriterOp::Flush(steps) => lemma_flush_only_writes(before, steps),
            WriterOp::Shutdown(steps, _) => lemma_flush_only_writes(before, steps),
        }
    }
}

/// After a flush that reports success, the calls made have written every byte accepted, and
/// nothing is buffered or under way. Where the lock was always free, every write has finished
/// or failed, and has finished where no error was ever reported.
pub proof fn law_flushed_means_delivered<R, F, D, E>(
    start: WriterState<R, F, D>,
    ops: Seq<WriterOp<F, D, E>>,
)
    requires
        start.queue == empty_queue::<F>(),
        writer_run(start, ops),
        reply_after(events_of(ops)) matches QueueReply::Finish(report) && succeeded(report),
    ensures
        writer_after(start, ops).queue == empty_queue::<F>(),
        pieces(calls_made(start, ops)).flatten() == bytes_accepted(ops),
        lock_free(events_of(ops)) ==> all_resolved(events_of(ops)),
{
    law_run_is_a_session(start, ops);
    law_flushed_means_written(events_of(ops));
    if lock_free(events_of(ops)) {
        law_flushed_means_resolved(events_of(ops));
    }
}

/// Where the lock was always free, at most one write is under way: the calls that write to
/// the channel are as many as the writes that have ended, and one more where one is kept.
pub proof fn law_one_write_under_way<R, F, D, E>(
    start: WriterState<R, F, D>,
    ops: Seq<WriterOp<F, D, E>>,
)
    requires
        start.queue == empty_queue::<F>(),
        writer_run(start, ops),
        lock_free(events_of(ops)),
    ensures
        pieces(calls_made(start, ops)).len() == writes_finished(events_of(ops)) + writes_failed(
            events_of(ops),
        ) + (if writer_after(start, ops).queue.task is Some {
            1nat
        } else {
            0nat
        }),
{
    law_run_is_a_session(start, ops);
    law_writes_accounted(events_of(ops));
    law_free_lock_drops_nothing(events_of(ops));
}

/// The channel is asked to close only by a shutdown whose flush succeeds, and as the last
/// call of it. By then the calls made have written every byte accepted, and nothing is
/// buffered or under way; and where the lock was always free every write has finished or
/// failed, and has finished where no error was ever reported.
pub proof fn law_close_follows_delivery<R, F, D, E>(
    start: WriterState<R, F, D>,
    ops: Seq<WriterOp<F, D, E>>,
    i: int,
)
    requires
        start.queue == empty_queue::<F>(),
        writer_run(start, ops),
        0 <= i < calls_made(start, ops).len(),
        calls_made(start, ops)[i] is Close,
    ensures
        exists|k: int|
            {
                &&& 0 < k <= ops.len()
                &&& ops[k - 1] is Shutdown
                &&& calls_made(start, #[trigger] ops.take(k)) == calls_made(start, ops).take(i + 1)
                &&& pieces(calls_made(start, ops).take(i)).flatten() == bytes_accepted(ops.take(k))
                &&& writer_after(start, ops.take(k)).queue == empty_queue::<F>()
                &&& lock_free(events_of(ops.take(k))) ==> all_resolved(events_of(ops.take(k)))
            },
    decreases ops.len(),
{
    let earlier = ops.drop_last();
    let before = writer_after(start, earlier);
    let made = calls_made(start, earlier);
    let calls = calls_made(start, ops);
    law_run_is_a_session(start, earlier);
    if i < made.len() {
        assert(made[i] == calls[i]);
        law_close_follows_delivery(start, earlier, i);
        let k = choose|k: int|
            {
                &&& 0 < k <= earlier.len()
                &&& earlier[k - 1] is Shutdown
                &&& calls_made(start, #[trigger] earlier.take(k)) == made.take(i + 1)
                &&& pieces(made.take(i)).flatten() == bytes_accepted(earlier.take(k))
                &&& writer_after(start, earlier.take(k)).queue == empty_queue::<F>()
                &&& lock_free(events_of(earlier.take(k))) ==> all_resolved(
                    events_of(earlier.take(k)),
                )
            };
        assert(earlier.take(k) =~= ops.take(k));
        assert(made.take(i + 1) =~= calls.take(i + 1));
        assert(made.take(i) =~= calls.take(i));
    } else {
        match ops.last() {
            WriterOp::Write(_) => {},
            WriterOp::Flush(steps) => {
                lemma_run_goes_on(before, events_of(earlier), steps);
                lemma_no_close_among(flush_calls(before, steps), i - made.len());
            },
            WriterOp::Shutdown(steps, close) => {
                let sent = flush_calls(before, steps);
                lemma_run_goes_on(before, events_of(earlier), steps);
                if i < made.len() + sent.len() {
                    assert(calls[i] == sent[i - made.len()]);
                    lemma_no_close_among(sent, i - made.len());
                }
                law_run_is_a_session(start, ops);
                law_flushed_means_delivered(start, ops);
                lemma_calls_compose(calls.take(i), seq![calls[i]]);
                assert(calls =~= calls.take(i) + seq![calls[i]]);
                assert(seq![calls[i]].drop_last() =~= Seq::empty());
                assert(pieces(seq![calls[i]].drop_last()) =~= Seq::empty());
                assert(pieces(calls) =~= pieces(calls.take(i)));
                assert(ops.take(ops.len() as int) =~= ops);
                assert(calls.take(i + 1) =~= calls);
            },
        }
    }
}

/// Where none of these calls asks to close, none of them does.
proof fn lemma_no_close_among<R, F, D>(calls: Calls<R, F, D>, i: int)
    requires
        closes_asked(calls) == 0,
        0 <= i < calls.len(),
    ensures
        !(calls[i] is Close),
    decreases calls.len(),
{
    if i < calls.len() - 1 {
        lemma_no_close_among(calls.drop_last(), i);
    }
}

/// The channel is asked to close again only once the request before has ended: the requests
/// made are those that ended and the one under way, where there is one.
pub proof fn law_one_close_at_a_time<R, F, D, E>(
    start: WriterState<R, F, D>,
    ops: Seq<WriterOp<F, D, E>>,
)
    requires
        start.queue == empty_queue::<F>(),
        start.close is None,
        writer_run(start, ops),
    ensures
        closes_asked(calls_made(start, ops)) == closes_ended(ops) + (if writer_after(
            start,
            ops,
        ).close is Some {
            1nat
        } else {
            0nat
        }),
    decreases ops.len(),
{
    if ops.len() > 0 {
        let earlier = ops.drop_last();
        let before = writer_after(start, earlier);
        law_one_close_at_a_time(start, earlier);
        law_run_is_a_session(start, earlier);
        lemma_calls_compose(calls_made(start, earlier), op_calls(before, ops.last()));
        match ops.last() {
            WriterOp::Write(_) => {},
            WriterOp::Flush(steps) => {
                lemma_run_goes_on(before, events_of(earlier), steps);
            },
            WriterOp::Shutdown(steps, close) => {
                lemma_run_goes_on(before, events_of(earlier), steps);
                if let Some((request, _)) = close {
                    let requests = close_calls(flushed_to(before, steps), request);
                    lemma_calls_compose(flush_calls(before, steps), requests);
                    lemma_close_writes_nothing(flushed_to(before, steps), request);
                }
            },
        }
    }
}

/// What the calls write is read at the other end: where the host carries the pieces of the
/// calls made on the channel, in order, a reader gets the bytes accepted but for those still
/// buffered.
pub proof fn law_calls_made_are_read<R, F, D, E, G>(
    start: WriterState<R, F, D>,
    ops: Seq<WriterOp<F, D, E>>,
)
    requires
        start.queue == empty_queue::<F>(),
        writer_run(start, ops),
    ensures
        ({
            let chunks = pieces(calls_made(start, ops));
            bytes_received(delivered(stream_of::<G>(chunks), chunks.len())) + writer_after(
                start,
                ops,
            ).queue.buffered == bytes_accepted(ops)
        }),
{
    law_run_is_a_session(start, ops);
    law_calls_carry_every_byte(start, ops);
    law_chunks_not_empty(events_of(ops));
    law_chunks_arrive::<G>(pieces(calls_made(start, ops)));
}

/// A flush is something that can be done to a writing end as part of a run.
pub proof fn law_flush_is_part_of_a_run<R, F, D, E, L, P>(
    before: WriterState<R, F, D>,
    after: WriterState<R, F, D>,
    report: Report<E>,
    try_lock: L,
    poll: P,
) where L: Fn() -> LockAttempt, P: Fn(F) -> TaskPoll<F, E>
    requires
        flushes(before, after, report, try_lock, poll),
    ensures
        exists|steps: Seq<QueueEvent<F, E>>|
            {
                &&& #[trigger] flush_steps(before, steps, try_lock, poll)
                &&& allows(before, WriterOp::<F, D, E>::Flush(steps))
                &&& after == done_to(before, WriterOp::<F, D, E>::Flush(steps))
                &&& reply_from(before.queue, steps) == QueueReply::<F, E>::Finish(report)
            },
{
}

/// A shutdown is something that can be done to a writing end as part of a run.
pub proof fn law_shutdown_is_part_of_a_run<R, F, D, E, L, P, Q>(
    before: WriterState<R, F, D>,
    after: WriterState<R, F, D>,
    report: Report<E>,
    try_lock: L,
    poll: P,
    poll_close: Q,
) where
    L: Fn() -> LockAttempt,
    P: Fn(F) -> TaskPoll<F, E>,
    Q: Fn(D) -> TaskPoll<D, E>,

    requires
        shuts_down(before, after, report, try_lock, poll, poll_close),
    ensures
        exists|steps: Seq<QueueEvent<F, E>>, close: Option<(D, TaskPoll<D, E>)>|
            {
                &&& flush_steps(before, steps, try_lock, poll)
                &&& #[trigger] allows(before, WriterOp::<F, D, E>::Shutdown(steps, close))
                &&& after == done_to(before, WriterOp::<F, D, E>::Shutdown(steps, close))
                &&& match close {
                    Some((request, polled)) => call_ensures(poll_close, (request,), polled)
                        && report == reported(polled),
                    None => reply_from(before.queue, steps) == QueueReply::<F, E>::Finish(report),
                }
            },
{
    let (middle, flushed) = choose|middle: WriterState<R, F, D>, flushed: Report<E>|
        {
            &&& #[trigger] flushes(before, middle, flushed, try_lock, poll)
            &&& closes_after(flushed, middle, after, report, poll_close)
        };
    let steps = choose|steps: Seq<QueueEvent<F, E>>|
        {
            &&& #[trigger] flush_steps(before, steps, try_lock, poll)
            &&& reply_from(before.queue, steps) == QueueReply::<F, E>::Finish(flushed)
            &&& middle == flushed_to(before, steps)
        };
    if succeeded(flushed) {
        let (request, polled) = choose|request: D, polled: TaskPoll<D, E>|
            {
                &&& carries_on(middle, request)
                &&& #[trigger] call_ensures(poll_close, (request,), polled)
                &&& report == reported(polled)
                &&& after == close_polled_to(closing(middle, request), polled)
            };
        assert(allows(before, WriterOp::<F, D, E>::Shutdown(steps, Some((request, polled)))));
    } else {
        assert(allows(before, WriterOp::<F, D, E>::Shutdown(steps, None)));
    }
}

} // verus!
