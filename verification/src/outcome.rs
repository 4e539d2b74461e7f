//! Plain values that stand for the outcomes of polling, locking and host calls.

use vstd::prelude::*;

verus! {

/// What one poll of an operation leaves behind.
#[derive(Debug, PartialEq, Eq)]
pub enum Progress<T> {
    /// The operation has ended with this value.
    Ready(T),
    /// The operation goes on, and has to be polled again.
    Pending,
}

/// An error of a byte stream: of no particular kind, around the error that the host gave.
#[derive(Debug, PartialEq, Eq)]
pub enum IoError<E> {
    /// A host call failed with this error.
    Other(E),
}

/// Outcome of one attempt to take a lock without waiting.
#[derive(Clone, Copy, Debug, PartialEq, Eq)]
pub enum LockAttempt {
    /// The lock was free and was taken.
    Acquired,
    /// Somebody else holds the lock.
    Held,
}

/// Outcome of polling a write or a close request, which itself comes back while it is
/// unfinished.
#[derive(Debug, PartialEq, Eq)]
pub enum TaskPoll<F, E> {
    /// It is unfinished.
    Pending(F),
    /// It has ended.
    Ready(Result<(), E>),
}

/// What a poll of a flush, a shutdown or a close reports.
pub type Report<E> = Progress<Result<(), IoError<E>>>;

/// Whether this is a report of success.
pub open spec fn succeeded<E>(report: Report<E>) -> bool {
    report matches Progress::Ready(Ok(_))
}

/// The report made of a poll of a host call: a failure is wrapped, the rest is passed on.
pub open spec fn reported<F, E>(polled: TaskPoll<F, E>) -> Report<E> {
    match polled {
        TaskPoll::Pending(_) => Progress::Pending,
        TaskPoll::Ready(Ok(())) => Progress::Ready(Ok(())),
        TaskPoll::Ready(Err(error)) => Progress::Ready(Err(IoError::Other(error))),
    }
}

/// The call that a poll hands back, to be polled again; none once it has ended.
pub open spec fn handed_back<F, E>(polled: TaskPoll<F, E>) -> Option<F> {
    match polled {
        TaskPoll::Pending(task) => Some(task),
        TaskPoll::Ready(_) => None,
    }
}

} // verus!
