//! The outgoing half of a channel: bytes that wait for a flush, and the write under way.
//!
//! The queue decides, step by step, what a flush does; polling a write and taking the
//! lock are left to the caller, who reports how they went.

use bytes::BytesMut;
use vstd::prelude::*;

use crate::buffer::{buffered_bytes, can_grow, chunk_to_vec};
use crate::outcome::{IoError, LockAttempt, Progress, Report, TaskPoll};

verus! {

/// State of a queue: the bytes that no write has taken yet, and the write kept for the
/// next poll.
#[verifier::ext_equal]
pub struct QueueState<F> {
    pub buffered: Seq<u8>,
    pub task: Option<F>,
}

/// What may happen to a queue.
pub enum QueueEvent<F, E> {
    /// Bytes are handed in.
    Push(Seq<u8>),
    /// A flush begins, or begins again, with an attempt to take the lock.
    FlushStarted(LockAttempt),
    /// The write that the flush asked to poll was polled.
    TaskPolled(TaskPoll<F, E>),
    /// The write that the flush asked for is there, and the lock was tried for it.
    TaskStored(F, LockAttempt),
}

/// What a queue asks for next.
#[verifier::ext_equal]
pub enum QueueReply<F, E> {
    /// Nothing: the event was no part of a flush.
    Nothing,
    /// Poll this write.
    Poll(F),
    /// Start a write of these bytes.
    Write(Seq<u8>),
    /// Begin the flush again.
    Restart,
    /// The flush is over for this time.
    Finish(Report<E>),
}

/// The state of a queue that nothing has happened to.
pub open spec fn empty_queue<F>() -> QueueState<F> {
    QueueState { buffered: Seq::empty(), task: None }
}

/// The state once these bytes are handed in: they wait behind those that already do.
pub open spec fn pushed<F>(state: QueueState<F>, bytes: Seq<u8>) -> QueueState<F> {
    QueueState { buffered: state.buffered + bytes, task: state.task }
}

/// Bytes handed in at once or in two parts wait in the same way.
pub proof fn law_pushes_join<F>(state: QueueState<F>, first: Seq<u8>, second: Seq<u8>)
    ensures
        pushed(pushed(state, first), second) == pushed(state, first + second),
{
    assert(pushed(pushed(state, first), second) =~= pushed(state, first + second));
}

/// The part of a flush that comes once no write is under way: everything buffered is
/// taken out in one piece, and where nothing is buffered the flush is done.
pub open spec fn drained<F, E>(state: QueueState<F>) -> (QueueState<F>, QueueReply<F, E>) {
    if state.buffered.len() == 0 {
        (state, QueueReply::Finish(Progress::Ready(Ok(()))))
    } else {
        (
            QueueState { buffered: Seq::empty(), task: state.task },
            QueueReply::Write(state.buffered),
        )
    }
}

/// The state after an event, and what is asked for then.
pub open spec fn queue_step<F, E>(state: QueueState<F>, event: QueueEvent<F, E>) -> (
    QueueState<F>,
    QueueReply<F, E>,
) {
    match event {
        QueueEvent::Push(bytes) => (pushed(state, bytes), QueueReply::Nothing),
        QueueEvent::FlushStarted(LockAttempt::Held) => (
            state,
            QueueReply::Finish(Progress::Pending),
        ),
        QueueEvent::FlushStarted(LockAttempt::Acquired) => match state.task {
            Some(task) => (
                QueueState { buffered: state.buffered, task: None },
                QueueReply::Poll(task),
            ),
            None => drained(state),
        },
        QueueEvent::TaskPolled(TaskPoll::Pending(task)) => (
            QueueState { buffered: state.buffered, task: Some(task) },
            QueueReply::Finish(Progress::Pending),
        ),
        QueueEvent::TaskPolled(TaskPoll::Ready(Ok(()))) => drained(state),
        QueueEvent::TaskPolled(TaskPoll::Ready(Err(error))) => (
            state,
            QueueReply::Finish(Progress::Ready(Err(IoError::Other(error)))),
        ),
        QueueEvent::TaskStored(_, LockAttempt::Held) => (
            state,
            QueueReply::Finish(Progress::Pending),
        ),
        QueueEvent::TaskStored(task, LockAttempt::Acquired) => (
            QueueState { buffered: state.buffered, task: Some(task) },
            QueueReply::Restart,
        ),
    }
}

/// What a step of a flush asks the caller to do.
pub enum QueueAction<F, E> {
    /// Poll this write, and report to [`WriteQueue::task_polled`].
    PollTask(F),
    /// Start a write of these bytes, and hand it to [`WriteQueue::store_task`].
    WriteChunk(Vec<u8>),
    /// Call [`WriteQueue::start_flush`] again.
    Restart,
    /// Report this; the flush is over for this time.
    Finish(Report<E>),
}

impl<F, E> View for QueueAction<F, E> {
    type V = QueueReply<F, E>;

    open spec fn view(&self) -> QueueReply<F, E> {
        match *self {
            QueueAction::PollTask(task) => QueueReply::Poll(task),
            QueueAction::WriteChunk(data) => QueueReply::Write(data@),
            QueueAction::Restart => QueueReply::Restart,
            QueueAction::Finish(report) => QueueReply::Finish(report),
        }
    }
}

/// Bytes that wait to be written, and the write under way.
pub struct WriteQueue<F> {
    pub(crate) buffer: BytesMut,
    pub(crate) write_task: Option<F>,
}

impl<F> View for WriteQueue<F> {
    type V = QueueState<F>;

    closed spec fn view(&self) -> QueueState<F> {
        QueueState { buffered: buffered_bytes(self.buffer), task: self.write_task }
    }
}

/// A queue holds the bytes of its buffer, and the write that it keeps.
pub(crate) proof fn law_queue_shows_what_it_holds<F>(queue: WriteQueue<F>)
    ensures
        queue@.buffered == buffered_bytes(queue.buffer),
        queue@.task == queue.write_task,
{
}

/// What each event does to a queue, and what is asked for then. Bytes handed in wait behind
/// those that already do. A flush with the lock held is pending; else the write kept is to be
/// polled. Where there is none, or it has finished, everything buffered is to be written, and
/// where nothing is the flush has succeeded. An unfinished write is kept as it was handed
/// back, a failed one is reported, and a new one is kept unless the lock is held.
pub proof fn law_what_each_event_does<F, E>(state: QueueState<F>, event: QueueEvent<F, E>)
    ensures
        ({
            let after = queue_step(state, event).0;
            let reply = queue_step(state, event).1;
            match event {
                QueueEvent::Push(bytes) => {
                    &&& after == (QueueState { buffered: state.buffered + bytes, task: state.task })
                    &&& reply is Nothing
                },
                QueueEvent::FlushStarted(LockAttempt::Held) => {
                    &&& after == state
                    &&& reply == QueueReply::<F, E>::Finish(Progress::Pending)
                },
                QueueEvent::TaskPolled(TaskPoll::Pending(task)) => {
                    &&& after == (QueueState { buffered: state.buffered, task: Some(task) })
                    &&& reply == QueueReply::<F, E>::Finish(Progress::Pending)
                },
                QueueEvent::TaskPolled(TaskPoll::Ready(Err(error))) => {
                    &&& after == state
                    &&& reply == QueueReply::<F, E>::Finish(
                        Progress::Ready(Err(IoError::Other(error))),
                    )
                },
                QueueEvent::TaskStored(_, LockAttempt::Held) => {
                    &&& after == state
                    &&& reply == QueueReply::<F, E>::Finish(Progress::Pending)
                },
                QueueEvent::TaskStored(task, LockAttempt::Acquired) => {
                    &&& after == (QueueState { buffered: state.buffered, task: Some(task) })
                    &&& reply is Restart
                },
                QueueEvent::FlushStarted(LockAttempt::Acquired)
                | QueueEvent::TaskPolled(TaskPoll::Ready(Ok(_))) => if event is FlushStarted
                    && state.task is Some {
                    &&& after == (QueueState::<F> { buffered: state.buffered, task: None })
                    &&& reply == QueueReply::<F, E>::Poll(state.task->0)
                } else if state.buffered.len() == 0 {
                    &&& after == state
                    &&& reply == QueueReply::<F, E>::Finish(Progress::Ready(Ok(())))
                } else {
                    &&& after == (QueueState { buffered: Seq::empty(), task: state.task })
                    &&& reply == QueueReply::<F, E>::Write(state.buffered)
                },
            }
        }),
{
}

impl<F> WriteQueue<F> {
    /// An empty queue with no write under way.
    pub fn new() -> (queue: Self)
        ensures
            queue@ == empty_queue::<F>(),
            queue@.buffered.len() == 0,
            queue@.task is None,
    {
        WriteQueue { buffer: BytesMut::new(), write_task: None }
    }

    /// Whether this many more bytes can be buffered.
    pub fn has_room(&self, additional: usize) -> (room: bool)
        ensures
            room == can_grow(self@.buffered.len(), additional as nat),
            room <==> additional == 0 || 2 * (2 * self@.buffered.len() + additional) <= isize::MAX,
    {
        let limit: usize = (isize::MAX as usize) / 2;
        let len: usize = self.buffer.len();
        additional == 0 || (additional <= limit && len <= (limit - additional) / 2)
    }

    /// Buffers the bytes, all of them, until a flush takes them out.
    pub fn push(&mut self, bytes: &[u8])
        requires
            can_grow(old(self)@.buffered.len(), bytes@.len()),
        ensures
            final(self)@ == pushed(old(self)@, bytes@),
            final(self)@.buffered == old(self)@.buffered + bytes@,
            final(self)@.task == old(self)@.task,
    {
        self.buffer.extend_from_slice(bytes);
    }

    /// Begins a flush: polls the write under way, or goes on to the buffered bytes.
    pub fn start_flush<E>(&mut self, lock: LockAttempt) -> (action: QueueAction<F, E>)
        ensures
            (final(self)@, action@) == queue_step(
                old(self)@,
                QueueEvent::<F, E>::FlushStarted(lock),
            ),
    {
        match lock {
            LockAttempt::Held => QueueAction::Finish(Progress::Pending),
            LockAttempt::Acquired => match self.write_task.take() {
                Some(task) => QueueAction::PollTask(task),
                None => self.drain(),
            },
        }
    }

    /// Goes on after the write was polled: an unfinished one is kept, a failed one is
    /// reported and dropped, a finished one makes way for the buffered bytes.
    pub fn task_polled<E>(&mut self, polled: TaskPoll<F, E>) -> (action: QueueAction<F, E>)
        ensures
            (final(self)@, action@) == queue_step(
                old(self)@,
                QueueEvent::<F, E>::TaskPolled(polled),
            ),
    {
        match polled {
            TaskPoll::Pending(task) => {
                self.write_task = Some(task);
                QueueAction::Finish(Progress::Pending)
            },
            TaskPoll::Ready(Ok(())) => self.drain(),
            TaskPoll::Ready(Err(error)) => QueueAction::Finish(
                Progress::Ready(Err(IoError::Other(error))),
            ),
        }
    }

    /// Keeps the write that was just started, so that the flush begins again with it.
    /// Where the lock is held by somebody else the write is dropped.
    pub fn store_task<E>(&mut self, task: F, lock: LockAttempt) -> (action: QueueAction<F, E>)
        ensures
            (final(self)@, action@) == queue_step(
                old(self)@,
                QueueEvent::<F, E>::TaskStored(task, lock),
            ),
    {
        match lock {
            LockAttempt::Held => QueueAction::Finish(Progress::Pending),
            LockAttempt::Acquired => {
                self.write_task = Some(task);
                QueueAction::Restart
            },
        }
    }

    /// Takes all the buffered bytes out for one write, unless there are none.
    fn drain<E>(&mut self) -> (action: QueueAction<F, E>)
        ensures
            (final(self)@, action@) == drained::<F, E>(old(self)@),
    {
        if self.buffer.is_empty() {
            return QueueAction::Finish(Progress::Ready(Ok(())));
        }
        let data: Vec<u8> = chunk_to_vec(self.buffer.split().freeze());
        QueueAction::WriteChunk(data)
    }
}

} // verus!
