//! Runs of a queue: what a sequence of events does to it.

use vstd::prelude::*;

use crate::outcome::succeeded;
use crate::queue::{empty_queue, queue_step, QueueEvent, QueueReply, QueueState};

verus! {

/// The state that these events, in order, lead to from a given one.
pub open spec fn state_from<F, E>(
    start: QueueState<F>,
    events: Seq<QueueEvent<F, E>>,
) -> QueueState<F>
    decreases events.len(),
{
    if events.len() == 0 {
        start
    } else {
        queue_step(state_from(start, events.drop_last()), events.last()).0
    }
}

/// What the last of these events asks for.
pub open spec fn reply_from<F, E>(
    start: QueueState<F>,
    events: Seq<QueueEvent<F, E>>,
) -> QueueReply<F, E> {
    if events.len() == 0 {
        QueueReply::Nothing
    } else {
        queue_step(state_from(start, events.drop_last()), events.last()).1
    }
}

/// Where a caller stands between two events.
pub enum Phase<F> {
    /// No flush is under way.
    Idle,
    /// The flush waits for the outcome of polling this write.
    Polling(F),
    /// The flush waits for the write that it asked for.
    Writing,
    /// The flush is to begin again.
    Restarting,
}

/// The phase that a reply leads to.
pub open spec fn next_phase<F, E>(reply: QueueReply<F, E>) -> Phase<F> {
    match reply {
        QueueReply::Nothing => Phase::Idle,
        QueueReply::Poll(task) => Phase::Polling(task),
        QueueReply::Write(_) => Phase::Writing,
        QueueReply::Restart => Phase::Restarting,
        QueueReply::Finish(_) => Phase::Idle,
    }
}

/// Whether a caller that does what the queue asks for can bring about this event.
pub open spec fn follows<F, E>(phase: Phase<F>, event: QueueEvent<F, E>) -> bool {
    match event {
        QueueEvent::Push(_) => phase is Idle,
        QueueEvent::FlushStarted(_) => phase is Idle || phase is Restarting,
        QueueEvent::TaskPolled(_) => phase is Polling,
        QueueEvent::TaskStored(_, _) => phase is Writing,
    }
}

/// Whether these events are those of a caller that always does what the queue asks for,
/// and begins when no flush is under way.
pub open spec fn obeys<F, E>(start: QueueState<F>, events: Seq<QueueEvent<F, E>>) -> bool
    decreases events.len(),
{
    events.len() == 0 || (obeys(start, events.drop_last()) && follows(
        next_phase(reply_from(start, events.drop_last())),
        events.last(),
    ))
}

/// The number of events that a flush may still take.
pub open spec fn steps_left<F>(state: QueueState<F>, phase: Phase<F>) -> nat {
    match phase {
        Phase::Idle => 0,
        Phase::Polling(_) => if state.buffered.len() == 0 { 1 } else { 4 },
        Phase::Restarting => 2,
        Phase::Writing => 3,
    }
}

/// While a flush waits for the caller, what it is waiting for is not in the queue as well;
/// and once it has taken the bytes out, none are left.
pub proof fn lemma_flush_under_way<F, E>(start: QueueState<F>, events: Seq<QueueEvent<F, E>>)
    requires
        obeys(start, events),
    ensures
        ({
            let state = state_from(start, events);
            let reply = reply_from(start, events);
            &&& reply is Poll ==> state.task is None
            &&& reply is Write ==> state.task is None && state.buffered.len() == 0
            &&& reply is Restart ==> state.task is Some && state.buffered.len() == 0
        }),
    decreases events.len(),
{
    if events.len() > 0 {
        lemma_flush_under_way(start, events.drop_last());
    }
}

/// A flush takes at most five events before it is over for this time: at most four are
/// left after the first, and the number falls with each. So it asks for at most one write,
/// which always leaves three.
pub proof fn law_flush_ends<F, E>(start: QueueState<F>, events: Seq<QueueEvent<F, E>>)
    requires
        obeys(start, events),
        events.len() > 0,
    ensures
        ({
            let before = events.drop_last();
            let phase = next_phase(reply_from(start, before));
            let reply = reply_from(start, events);
            let left = steps_left(state_from(start, events), next_phase(reply));
            &&& left <= 4
            &&& reply is Write ==> left == 3
            &&& !(phase is Idle) ==> left < steps_left(state_from(start, before), phase)
        }),
{
    lemma_flush_under_way(start, events.drop_last());
    lemma_flush_under_way(start, events);
}

/// A flush that reports success leaves nothing buffered and no write.
pub proof fn law_flushed_means_empty<F, E>(
    start: QueueState<F>,
    events: Seq<QueueEvent<F, E>>,
)
    requires
        obeys(start, events),
        reply_from(start, events) matches QueueReply::Finish(report) && succeeded(report),
    ensures
        state_from(start, events) == empty_queue::<F>(),
{
    lemma_flush_under_way(start, events.drop_last());
    assert(state_from(start, events) =~= empty_queue::<F>());
}

/// Events one after the other: those that come later begin where the earlier ones end.
pub proof fn law_runs_compose<F, E>(
    start: QueueState<F>,
    earlier: Seq<QueueEvent<F, E>>,
    later: Seq<QueueEvent<F, E>>,
)
    requires
        obeys(start, earlier),
        next_phase(reply_from(start, earlier)) is Idle,
        obeys(state_from(start, earlier), later),
    ensures
        obeys(start, earlier + later),
        state_from(start, earlier + later) == state_from(state_from(start, earlier), later),
        later.len() > 0 ==> reply_from(start, earlier + later) == reply_from(
            state_from(start, earlier),
            later,
        ),
    decreases later.len(),
{
    let all = earlier + later;
    if later.len() == 0 {
        assert(all =~= earlier);
    } else {
        law_runs_compose(start, earlier, later.drop_last());
        assert(all.drop_last() =~= earlier + later.drop_last());
        if later.len() == 1 {
            assert(all.drop_last() =~= earlier);
        }
    }
}

} // verus!
