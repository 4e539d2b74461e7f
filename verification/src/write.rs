//! The writing end of a host channel.

use vstd::prelude::*;

use crate::buffer::can_grow;
use crate::flush::{
    carries_on, carries_out, close_polled_to, closing, flush_calls, flush_steps, flushed_to,
    flushes, law_flush_obeys, new_writer, outcomes_of, shuts_down, steps_to, ShutdownAction,
    WriteAction, WriterState,
};
use crate::host::{Channel, ChannelCall, CloseOf, HostTransport, ReadOf, WriteOf};
use crate::index::IndexError;
use crate::outcome::{reported, succeeded, IoError, LockAttempt, Progress, Report, TaskPoll};
use crate::queue::{empty_queue, pushed, QueueAction, QueueEvent, WriteQueue};
use crate::queue_run::{
    law_flush_ends, law_flushed_means_empty, next_phase, reply_from, steps_left,
};

verus! {

/// Turns writes of bytes into writes of chunks on a channel.
///
/// Bytes are buffered until a flush, which hands all of them to the channel as one chunk.
pub struct HostAsyncWrite<T: HostTransport> {
    pub(crate) channel: T::Channel,
    pub(crate) queue: WriteQueue<WriteOf<T>>,
    pub(crate) close_task: Option<CloseOf<T>>,
}

impl<T: HostTransport> View for HostAsyncWrite<T> {
    type V = WriterState<ReadOf<T>, WriteOf<T>, CloseOf<T>>;

    closed spec fn view(&self) -> WriterState<ReadOf<T>, WriteOf<T>, CloseOf<T>> {
        WriterState {
            queue: self.queue@,
            calls: self.channel.calls(),
            possible: self.channel.possible(),
            close: self.close_task,
        }
    }
}

/// A writer shows the calls made on its channel and those that can be, all of them, and what
/// it holds itself.
pub(crate) proof fn law_writer_shows_what_it_holds<T: HostTransport>(write: HostAsyncWrite<T>)
    ensures
        write@.calls == write.channel.calls(),
        write@.possible == write.channel.possible(),
        write@.queue == write.queue@,
        write@.close == write.close_task,
{
}

impl<T: HostTransport> HostAsyncWrite<T> {
    /// A writer on this channel, with nothing buffered and no close request. Nothing is
    /// called on the channel.
    pub fn new(channel: T::Channel) -> (write: Self)
        ensures
            write@ == new_writer::<ReadOf<T>, WriteOf<T>, CloseOf<T>>(
                channel.calls(),
                channel.possible(),
            ),
            write@.calls == channel.calls(),
            write@.possible == channel.possible(),
            write@.queue.buffered.len() == 0,
            write@.queue.task is None,
            write@.close is None,
    {
        HostAsyncWrite { channel, queue: WriteQueue::new(), close_task: None }
    }

    /// Whether this many more bytes can be buffered.
    pub fn has_room(&self, additional: usize) -> (room: bool)
        ensures
            room == can_grow(self@.queue.buffered.len(), additional as nat),
            room <==> additional == 0 || 2 * (2 * self@.queue.buffered.len() + additional)
                <= isize::MAX,
    {
        self.queue.has_room(additional)
    }

    /// Buffers the bytes for the next flush, and returns how many there were: always all.
    /// Nothing is called on the channel.
    pub fn poll_write(&mut self, buf: &[u8]) -> (written: usize)
        requires
            can_grow(old(self)@.queue.buffered.len(), buf@.len()),
        ensures
            written == buf@.len(),
            final(self)@ == (WriterState {
                queue: pushed(old(self)@.queue, buf@),
                ..old(self)@
            }),
            final(self)@.queue.buffered == old(self)@.queue.buffered + buf@,
            final(self)@.queue.task == old(self)@.queue.task,
            final(self)@.calls == old(self)@.calls,
            final(self)@.possible == old(self)@.possible,
            final(self)@.close == old(self)@.close,
    {
        self.queue.push(buf);
        buf.len()
    }

    /// Begins a flush, after an attempt to take the lock of the write under way.
    pub fn start_flush(&mut self, lock: LockAttempt) -> (action: WriteAction<
        WriteOf<T>,
        T::Error,
    >)
        ensures
            steps_to(old(self)@, QueueEvent::FlushStarted(lock), final(self)@, action),
    {
        let action = self.queue.start_flush(lock);
        self.act(action)
    }

    /// Goes on with a flush, after its write was polled.
    pub fn task_polled(&mut self, polled: TaskPoll<WriteOf<T>, T::Error>) -> (action: WriteAction<
        WriteOf<T>,
        T::Error,
    >)
        ensures
            steps_to(old(self)@, QueueEvent::TaskPolled(polled), final(self)@, action),
    {
        let action = self.queue.task_polled(polled);
        self.act(action)
    }

    /// Goes on with a flush, after the lock was tried for the write just started.
    pub fn store_task(&mut self, task: WriteOf<T>, lock: LockAttempt) -> (action: WriteAction<
        WriteOf<T>,
        T::Error,
    >)
        ensures
            steps_to(old(self)@, QueueEvent::TaskStored(task, lock), final(self)@, action),
    {
        let action = self.queue.store_task(task, lock);
        self.act(action)
    }

    /// Goes on with a shutdown, after a flush with this report: only a successful flush is
    /// followed by a poll of the close request. That is the one under way; where there is
    /// none, the channel is asked to close.
    pub fn close_after(&mut self, flushed: Report<T::Error>) -> (action: ShutdownAction<
        CloseOf<T>,
        T::Error,
    >)
        ensures
            succeeded(flushed) ==> (action matches ShutdownAction::PollClose(close) && carries_on(
                old(self)@,
                close,
            ) && final(self)@ == closing(old(self)@, close)),
            !succeeded(flushed) ==> action == ShutdownAction::<CloseOf<T>, T::Error>::Finish(
                flushed,
            ) && final(self)@ == old(self)@,
            match flushed {
                Progress::Ready(Ok(_)) => action matches ShutdownAction::PollClose(close) && {
                    &&& final(self)@.queue == old(self)@.queue
                    &&& final(self)@.possible == old(self)@.possible
                    &&& final(self)@.close is None
                    &&& match old(self)@.close {
                        Some(kept) => close == kept && final(self)@.calls == old(self)@.calls,
                        None => final(self)@.calls == old(self)@.calls.push(
                            ChannelCall::Close(close),
                        ) && old(self)@.possible.contains(ChannelCall::Close(close)),
                    }
                },
                _ => action == ShutdownAction::<CloseOf<T>, T::Error>::Finish(flushed)
                    && final(self)@ == old(self)@,
            },
    {
        match flushed {
            Progress::Pending => ShutdownAction::Finish(Progress::Pending),
            Progress::Ready(Err(error)) => ShutdownAction::Finish(Progress::Ready(Err(error))),
            Progress::Ready(Ok(())) => match self.close_task.take() {
                Some(close) => ShutdownAction::PollClose(close),
                None => ShutdownAction::PollClose(self.channel.close()),
            },
        }
    }

    /// Ends a shutdown for this time, after its close request was polled: an unfinished one
    /// is kept, and is polled again by the next shutdown. Nothing is called on the channel.
    pub fn close_polled(&mut self, polled: TaskPoll<CloseOf<T>, T::Error>) -> (report: Report<
        T::Error,
    >)
        ensures
            report == reported(polled),
            final(self)@ == close_polled_to(old(self)@, polled),
            match polled {
                TaskPoll::Pending(close) => report is Pending && final(self)@.close == Some(close),
                TaskPoll::Ready(Ok(_)) => (report matches Progress::Ready(Ok(_)))
                    && final(self)@.close is None,
                TaskPoll::Ready(Err(error)) => report == Progress::<
                    Result<(), IoError<T::Error>>,
                >::Ready(Err(IoError::Other(error))) && final(self)@.close is None,
            },
            final(self)@.queue == old(self)@.queue,
            final(self)@.calls == old(self)@.calls,
            final(self)@.possible == old(self)@.possible,
    {
        match polled {
            TaskPoll::Pending(close) => {
                self.close_task = Some(close);
                Progress::Pending
            },
            TaskPoll::Ready(outcome) => {
                self.close_task = None;
                match outcome {
                    Ok(()) => Progress::Ready(Ok(())),
                    Err(error) => Progress::Ready(Err(IoError::Other(error))),
                }
            },
        }
    }

    /// Flushes: has the write under way polled and, once there is none, everything buffered
    /// written as one chunk and that write polled in turn. Nothing else is called on the
    /// channel.
    ///
    /// `try_lock` tries the lock of the write under way, and `poll` polls a write.
    pub fn poll_flush<L, P>(&mut self, try_lock: L, poll: P) -> (report: Report<T::Error>) where
        L: Fn() -> LockAttempt,
        P: Fn(WriteOf<T>) -> TaskPoll<WriteOf<T>, T::Error>,

        requires
            call_requires(try_lock, ()),
            forall|task: WriteOf<T>| call_requires(poll, (task,)),
        ensures
            flushes(old(self)@, final(self)@, report, try_lock, poll),
            succeeded(report) ==> final(self)@.queue == empty_queue::<WriteOf<T>>(),
            (report matches Progress::Ready(Ok(_))) ==> final(self)@.queue.buffered.len() == 0
                && final(self)@.queue.task is None,
    {
        let ghost before = self@;
        let lock = try_lock();
        let mut action = self.start_flush(lock);
        let ghost mut steps = seq![QueueEvent::<WriteOf<T>, T::Error>::FlushStarted(lock)];
        assert(steps.drop_last() =~= Seq::empty());
        assert(flush_calls(before, steps.drop_last()) =~= Seq::empty());
        assert(outcomes_of(before, steps.drop_last(), try_lock, poll));
        loop
            invariant
                call_requires(try_lock, ()),
                forall|task: WriteOf<T>| call_requires(poll, (task,)),
                before == old(self)@,
                flush_steps(before, steps, try_lock, poll),
                self@ == (WriterState { calls: self@.calls, ..flushed_to(before, steps) }),
                carries_out(
                    flushed_to(before, steps),
                    reply_from(before.queue, steps),
                    action,
                    self@.calls,
                ),
            decreases steps_left(self@.queue, next_phase(reply_from(before.queue, steps))),
        {
            let ghost taken = steps;
            match action {
                WriteAction::PollTask(task) => {
                    let polled = poll(task);
                    action = self.task_polled(polled);
                    proof {
                        steps = taken.push(QueueEvent::TaskPolled(polled));
                    }
                },
                WriteAction::StoreTask(task) => {
                    let lock = try_lock();
                    let ghost stored = task;
                    action = self.store_task(task, lock);
                    proof {
                        steps = taken.push(QueueEvent::TaskStored(stored, lock));
                    }
                },
                WriteAction::Restart => {
                    let lock = try_lock();
                    action = self.start_flush(lock);
                    proof {
                        steps = taken.push(QueueEvent::FlushStarted(lock));
                    }
                },
                WriteAction::Finish(report) => {
                    proof {
                        law_flush_obeys(before, steps);
                        if succeeded(report) {
                            law_flushed_means_empty(before.queue, steps);
                        }
                        assert(self@ =~= flushed_to(before, steps));
                    }
                    return report;
                },
            }
            proof {
                assert(steps.drop_last() =~= taken);
                assert(flush_steps(before, steps, try_lock, poll));
                law_flush_obeys(before, steps);
                law_flush_ends(before.queue, steps);
            }
        }
    }

    /// Shuts the writer down: flushes and, where that succeeds, has the close request polled.
    /// The request is made once, and kept from one poll to the next until it has ended.
    /// Nothing else is called on the channel.
    ///
    /// `try_lock` and `poll` are as for [`HostAsyncWrite::poll_flush`]; `poll_close` polls a
    /// close request.
    pub fn poll_shutdown<L, P, Q>(&mut self, try_lock: L, poll: P, poll_close: Q) -> (report:
        Report<T::Error>) where
        L: Fn() -> LockAttempt,
        P: Fn(WriteOf<T>) -> TaskPoll<WriteOf<T>, T::Error>,
        Q: Fn(CloseOf<T>) -> TaskPoll<CloseOf<T>, T::Error>,

        requires
            call_requires(try_lock, ()),
            forall|task: WriteOf<T>| call_requires(poll, (task,)),
            forall|close: CloseOf<T>| call_requires(poll_close, (close,)),
        ensures
            shuts_down(old(self)@, final(self)@, report, try_lock, poll, poll_close),
    {
        let flushed = self.poll_flush(try_lock, poll);
        let ghost report_of_flush = flushed;
        let ghost middle = self@;
        assert(flushes(old(self)@, middle, report_of_flush, try_lock, poll));
        match self.close_after(flushed) {
            ShutdownAction::PollClose(close) => {
                let ghost request = close;
                let polled = poll_close(close);
                let ghost outcome = polled;
                assert(carries_on(middle, request) && call_ensures(
                    poll_close,
                    (request,),
                    outcome,
                ));
                self.close_polled(polled)
            },
            ShutdownAction::Finish(report) => report,
        }
    }

    /// A channel has no parts: every path is refused.
    pub fn index(&self, _path: &[usize]) -> (part: Result<HostAsyncWrite<T>, IndexError>)
        ensures
            part == Err::<HostAsyncWrite<T>, IndexError>(IndexError::Unsupported),
    {
        Err(IndexError::Unsupported)
    }

    /// Starts the write that the queue asks for; passes the rest on.
    fn act(&mut self, action: QueueAction<WriteOf<T>, T::Error>) -> (result: WriteAction<
        WriteOf<T>,
        T::Error,
    >)
        ensures
            final(self)@ == (WriterState { calls: final(self)@.calls, ..old(self)@ }),
            carries_out(old(self)@, action@, result, final(self)@.calls),
    {
        match action {
            QueueAction::PollTask(task) => WriteAction::PollTask(task),
            QueueAction::WriteChunk(data) => WriteAction::StoreTask(self.channel.write(data)),
            QueueAction::Restart => WriteAction::Restart,
            QueueAction::Finish(report) => WriteAction::Finish(report),
        }
    }
}

} // verus!
