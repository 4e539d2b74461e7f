//! What holds of a loop that accepts connections.

use vstd::prelude::*;

use crate::server::{loop_step, LoopStep};

verus! {

/// What the loop has ended with after these connections, where it has ended.
pub open spec fn loop_end<E>(outcomes: Seq<Result<(), E>>) -> Option<E>
    decreases outcomes.len(),
{
    if outcomes.len() == 0 {
        None
    } else {
        match loop_step(outcomes.first()) {
            LoopStep::AcceptNext => loop_end(outcomes.drop_first()),
            LoopStep::Stop(error) => Some(error),
        }
    }
}

/// The loop ends with the first connection that fails, and with its error; while none
/// does it goes on.
pub proof fn law_accept_loop_ends_with_first_failure<E>(outcomes: Seq<Result<(), E>>)
    ensures
        match loop_end(outcomes) {
            None => forall|i: int| 0 <= i < outcomes.len() ==> (#[trigger] outcomes[i]) is Ok,
            Some(error) => exists|i: int|
                0 <= i < outcomes.len() && #[trigger] outcomes[i] == Err::<(), E>(error) && (forall|
                    j: int,
                |
                    0 <= j < i ==> (#[trigger] outcomes[j]) is Ok),
        },
    decreases outcomes.len(),
{
    if outcomes.len() > 0 {
        let rest = outcomes.drop_first();
        law_accept_loop_ends_with_first_failure(rest);
        match outcomes.first() {
            Err(error) => {
                assert(outcomes[0] == Err::<(), E>(error));
            },
            Ok(_) => match loop_end(rest) {
                None => {
                    assert forall|i: int| 0 <= i < outcomes.len() implies (
                    #[trigger] outcomes[i]) is Ok by {
                        if i > 0 {
                            assert(rest[i - 1] is Ok);
                        }
                    }
                },
                Some(error) => {
                    let k = choose|i: int|
                        0 <= i < rest.len() && #[trigger] rest[i] == Err::<(), E>(error) && (forall|
                            j: int,
                        |
                            0 <= j < i ==> (#[trigger] rest[j]) is Ok);
                    assert(outcomes[k + 1] == Err::<(), E>(error));
                    assert forall|j: int| 0 <= j < k + 1 implies (#[trigger] outcomes[j]) is Ok by {
                        if j > 0 {
                            assert(rest[j - 1] is Ok);
                        }
                    }
                },
            },
        }
    }
}

/// What happens in a loop that accepts connections.
pub enum LoopEvent<E> {
    /// Accepting a connection begins.
    Begun,
    /// Accepting that connection has ended.
    Ended(Result<(), E>),
}

/// Whether these are the events of a loop that begins to accept one connection, and goes on
/// after each as [`loop_step`] says.
pub open spec fn loop_run<E>(events: Seq<LoopEvent<E>>) -> bool
    decreases events.len(),
{
    if events.len() == 0 {
        true
    } else {
        let before = events.drop_last();
        loop_run(before) && match events.last() {
            LoopEvent::Begun => before.len() == 0 || (
            before.last() matches LoopEvent::Ended(outcome) && loop_step(outcome) is AcceptNext),
            LoopEvent::Ended(_) => before.len() > 0 && before.last() is Begun,
        }
    }
}

/// The number of times that accepting a connection began.
pub open spec fn accepts_begun<E>(events: Seq<LoopEvent<E>>) -> nat
    decreases events.len(),
{
    if events.len() == 0 {
        0
    } else if events.last() is Begun {
        accepts_begun(events.drop_last()) + 1
    } else {
        accepts_begun(events.drop_last())
    }
}

/// The number of times that accepting a connection ended.
pub open spec fn accepts_ended<E>(events: Seq<LoopEvent<E>>) -> nat
    decreases events.len(),
{
    if events.len() == 0 {
        0
    } else if events.last() is Ended {
        accepts_ended(events.drop_last()) + 1
    } else {
        accepts_ended(events.drop_last())
    }
}

/// Connections are accepted one after the other: at no time is more than one being accepted,
/// and accepting each but the first begins right after the one before was accepted.
pub proof fn law_accepts_do_not_overlap<E>(events: Seq<LoopEvent<E>>)
    requires
        loop_run(events),
    ensures
        accepts_begun(events) == accepts_ended(events) + (if events.len() > 0
            && events.last() is Begun {
            1nat
        } else {
            0nat
        }),
        forall|i: int|
            0 < i < events.len() && #[trigger] events[i] is Begun ==> (
            events[i - 1] matches LoopEvent::Ended(Ok(_))),
    decreases events.len(),
{
    if events.len() > 0 {
        let before = events.drop_last();
        law_accepts_do_not_overlap(before);
        assert forall|i: int| 0 < i < events.len() && #[trigger] events[i] is Begun implies (
        events[i - 1] matches LoopEvent::Ended(Ok(_))) by {
            assert(events[i - 1] == before[i - 1]);
            if i < before.len() {
                assert(events[i] == before[i]);
            }
        }
    }
}

} // verus!
