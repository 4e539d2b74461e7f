use std::cell::{Cell, RefCell};
use std::sync::{Arc, Mutex};

use wrpc_transport_host::host::{Calls, PossibleCalls};
use wrpc_transport_host::queue::{QueueAction, WriteQueue};
use wrpc_transport_host::{
    Channel, HostAsyncWrite, HostTransport, IndexError, IoError, LockAttempt, Progress,
    ShutdownAction, TaskPoll, WriteAction,
};

/// Calls made on a channel, in order.
type Log = Arc<Mutex<Vec<Call>>>;

#[derive(Clone, Debug, PartialEq, Eq)]
enum Call {
    Read,
    Write(Vec<u8>),
    Close,
}

struct RecordedChannel {
    log: Log,
}

/// A write that a recorded channel was asked for, by its number.
#[derive(Debug, PartialEq, Eq)]
struct Write(usize);

impl Channel for RecordedChannel {
    type ReadStream = ();
    type WriteFuture = Write;
    type CloseFuture = usize;

    fn calls(&self) -> Calls<(), Write, usize> {
        unreachable!("known to proofs alone")
    }

    fn possible(&self) -> PossibleCalls<(), Write, usize> {
        unreachable!("known to proofs alone")
    }

    fn read(&mut self) {
        self.log.lock().unwrap().push(Call::Read);
    }

    fn write(&mut self, data: Vec<u8>) -> Write {
        let mut log = self.log.lock().unwrap();
        log.push(Call::Write(data));
        Write(log.len())
    }

    fn close(&mut self) -> usize {
        let mut log = self.log.lock().unwrap();
        log.push(Call::Close);
        log.len()
    }
}

struct RecordedHost;

impl HostTransport for RecordedHost {
    type Error = &'static str;
    type Channel = RecordedChannel;
    type CreateFuture = ();
    type AcceptFuture = ();

    fn create_invocation_channel(&self) {}

    fn accept_channel(&self) {}
}

/// Outcomes for the polls of a flush, in order.
struct Outcomes(RefCell<Vec<Progress<Result<(), &'static str>>>>);

impl Outcomes {
    fn new(mut outcomes: Vec<Progress<Result<(), &'static str>>>) -> Self {
        outcomes.reverse();
        Outcomes(RefCell::new(outcomes))
    }

    fn poll(&self, task: Write) -> TaskPoll<Write, &'static str> {
        match self.0.borrow_mut().pop().expect("one poll too many") {
            Progress::Pending => TaskPoll::Pending(task),
            Progress::Ready(outcome) => TaskPoll::Ready(outcome),
        }
    }

    fn used_up(&self) -> bool {
        self.0.borrow().is_empty()
    }
}

fn writer() -> (HostAsyncWrite<RecordedHost>, Log) {
    let log = Log::default();
    let write = HostAsyncWrite::new(RecordedChannel { log: log.clone() });
    (write, log)
}

fn calls(log: &Log) -> Vec<Call> {
    log.lock().unwrap().clone()
}

type Action = WriteAction<Write, &'static str>;

fn expect_store(action: Action) -> Write {
    match action {
        WriteAction::StoreTask(task) => task,
        _ => panic!("a write was to be kept"),
    }
}

fn expect_poll(action: Action) -> Write {
    match action {
        WriteAction::PollTask(task) => task,
        _ => panic!("a write was to be polled"),
    }
}

fn expect_finish(action: Action) -> Progress<Result<(), IoError<&'static str>>> {
    match action {
        WriteAction::Finish(report) => report,
        _ => panic!("the flush was to be over"),
    }
}

/// Flushes on a free lock, with this outcome for each write polled.
fn flush(
    write: &mut HostAsyncWrite<RecordedHost>,
    outcomes: Vec<Progress<Result<(), &'static str>>>,
) -> Progress<Result<(), IoError<&'static str>>> {
    let outcomes = Outcomes::new(outcomes);
    let report = write.poll_flush(|| LockAttempt::Acquired, |task| outcomes.poll(task));
    assert!(outcomes.used_up(), "one poll too few");
    report
}

#[test]
fn writes_are_buffered_until_a_flush() {
    let (mut write, log) = writer();
    assert_eq!(write.poll_write(b"ab"), 2);
    assert_eq!(write.poll_write(b""), 0);
    assert_eq!(write.poll_write(b"cde"), 3);
    assert_eq!(calls(&log), vec![]);
    assert_eq!(
        flush(&mut write, vec![Progress::Ready(Ok(()))]),
        Progress::Ready(Ok(()))
    );
    assert_eq!(calls(&log), vec![Call::Write(b"abcde".to_vec())]);
}

#[test]
fn flush_of_nothing_succeeds_and_calls_nothing() {
    let (mut write, log) = writer();
    assert_eq!(flush(&mut write, vec![]), Progress::Ready(Ok(())));
    write.poll_write(b"");
    assert_eq!(flush(&mut write, vec![]), Progress::Ready(Ok(())));
    assert_eq!(calls(&log), vec![]);
}

#[test]
fn flush_goes_through_its_steps() {
    let (mut write, log) = writer();
    write.poll_write(&[7]);
    let task = expect_store(write.start_flush(LockAttempt::Acquired));
    assert_eq!(task, Write(1));
    assert!(matches!(
        write.store_task(task, LockAttempt::Acquired),
        WriteAction::Restart
    ));
    let task = expect_poll(write.start_flush(LockAttempt::Acquired));
    assert_eq!(task, Write(1));
    assert_eq!(
        expect_finish(write.task_polled(TaskPoll::Ready(Ok(())))),
        Progress::Ready(Ok(()))
    );
    assert_eq!(calls(&log), vec![Call::Write(vec![7])]);
}

#[test]
fn pending_write_is_kept_and_nothing_else_is_written() {
    let (mut write, log) = writer();
    write.poll_write(b"first");
    assert_eq!(flush(&mut write, vec![Progress::Pending]), Progress::Pending);
    write.poll_write(b"second");
    assert_eq!(flush(&mut write, vec![Progress::Pending]), Progress::Pending);
    assert_eq!(calls(&log), vec![Call::Write(b"first".to_vec())]);
    assert_eq!(
        flush(&mut write, vec![Progress::Ready(Ok(())), Progress::Ready(Ok(()))]),
        Progress::Ready(Ok(()))
    );
    assert_eq!(
        calls(&log),
        vec![Call::Write(b"first".to_vec()), Call::Write(b"second".to_vec())]
    );
}

#[test]
fn pieces_hold_all_bytes_in_order() {
    let (mut write, log) = writer();
    let mut pushed = vec![];
    for round in 0..20u8 {
        for i in 0..round {
            let bytes = [round, i, 255 - i];
            pushed.extend_from_slice(&bytes);
            assert_eq!(write.poll_write(&bytes), 3);
        }
        let outcomes = if round == 0 { vec![] } else { vec![Progress::Ready(Ok(()))] };
        assert_eq!(flush(&mut write, outcomes), Progress::Ready(Ok(())));
    }
    let mut written = vec![];
    for call in calls(&log) {
        match call {
            Call::Write(chunk) => {
                assert!(!chunk.is_empty());
                written.extend(chunk);
            }
            _ => panic!("only writes were asked for"),
        }
    }
    assert_eq!(written, pushed);
}

#[test]
fn failed_write_is_reported_and_the_rest_is_kept() {
    let (mut write, log) = writer();
    write.poll_write(b"lost");
    assert_eq!(flush(&mut write, vec![Progress::Pending]), Progress::Pending);
    write.poll_write(b"kept");
    assert_eq!(
        flush(&mut write, vec![Progress::Ready(Err("gone"))]),
        Progress::Ready(Err(IoError::Other("gone")))
    );
    assert_eq!(calls(&log), vec![Call::Write(b"lost".to_vec())]);
    assert_eq!(
        flush(&mut write, vec![Progress::Ready(Ok(()))]),
        Progress::Ready(Ok(()))
    );
    assert_eq!(
        calls(&log),
        vec![Call::Write(b"lost".to_vec()), Call::Write(b"kept".to_vec())]
    );
}

#[test]
fn new_write_that_fails_at_once_is_reported() {
    let (mut write, _) = writer();
    write.poll_write(b"x");
    assert_eq!(
        flush(&mut write, vec![Progress::Ready(Err("refused"))]),
        Progress::Ready(Err(IoError::Other("refused")))
    );
    assert_eq!(flush(&mut write, vec![]), Progress::Ready(Ok(())));
}

#[test]
fn held_lock_leaves_a_flush_pending() {
    let (mut write, log) = writer();
    write.poll_write(b"x");
    assert_eq!(
        expect_finish(write.start_flush(LockAttempt::Held)),
        Progress::Pending
    );
    assert_eq!(calls(&log), vec![]);
    assert_eq!(
        flush(&mut write, vec![Progress::Ready(Ok(()))]),
        Progress::Ready(Ok(()))
    );
    assert_eq!(calls(&log), vec![Call::Write(b"x".to_vec())]);
}

#[test]
fn write_that_finds_the_lock_held_is_dropped() {
    let (mut write, log) = writer();
    write.poll_write(b"x");
    let task = expect_store(write.start_flush(LockAttempt::Acquired));
    assert_eq!(
        expect_finish(write.store_task(task, LockAttempt::Held)),
        Progress::Pending
    );
    assert_eq!(flush(&mut write, vec![]), Progress::Ready(Ok(())));
    assert_eq!(calls(&log), vec![Call::Write(b"x".to_vec())]);
}

#[test]
fn flush_again_after_success_asks_for_nothing() {
    let (mut write, log) = writer();
    write.poll_write(b"x");
    assert_eq!(
        flush(&mut write, vec![Progress::Ready(Ok(()))]),
        Progress::Ready(Ok(()))
    );
    assert_eq!(flush(&mut write, vec![]), Progress::Ready(Ok(())));
    assert_eq!(calls(&log).len(), 1);
}

#[test]
fn shutdown_closes_only_after_a_successful_flush() {
    let (mut write, log) = writer();
    assert!(matches!(
        write.close_after(Progress::Pending),
        ShutdownAction::Finish(Progress::Pending)
    ));
    assert!(matches!(
        write.close_after(Progress::Ready(Err(IoError::Other("gone")))),
        ShutdownAction::Finish(Progress::Ready(Err(IoError::Other("gone"))))
    ));
    assert_eq!(calls(&log), vec![]);
    assert!(matches!(
        write.close_after(Progress::Ready(Ok(()))),
        ShutdownAction::PollClose(1)
    ));
    assert_eq!(calls(&log), vec![Call::Close]);
}

#[test]
fn close_under_way_is_polled_again() {
    let (mut write, log) = writer();
    assert!(matches!(
        write.close_after(Progress::Ready(Ok(()))),
        ShutdownAction::PollClose(1)
    ));
    assert_eq!(write.close_polled(TaskPoll::Pending(1)), Progress::Pending);
    assert!(matches!(
        write.close_after(Progress::Pending),
        ShutdownAction::Finish(Progress::Pending)
    ));
    assert!(matches!(
        write.close_after(Progress::Ready(Ok(()))),
        ShutdownAction::PollClose(1)
    ));
    assert_eq!(calls(&log), vec![Call::Close]);
}

#[test]
fn close_is_reported_as_it_went() {
    let (mut write, _) = writer();
    assert_eq!(write.close_polled(TaskPoll::Pending(5)), Progress::Pending);
    assert_eq!(
        write.close_polled(TaskPoll::Ready(Ok(()))),
        Progress::Ready(Ok(()))
    );
    assert_eq!(
        write.close_polled(TaskPoll::Ready(Err("late"))),
        Progress::Ready(Err(IoError::Other("late")))
    );
}

#[test]
fn writer_refuses_every_path() {
    let (write, log) = writer();
    for path in [&[][..], &[0], &[1, 2, 3]] {
        match write.index(path) {
            Err(error) => {
                assert_eq!(error, IndexError::Unsupported);
                assert_eq!(
                    error.message(),
                    "host transport channels do not support indexing - use wRPC framing layer"
                );
            }
            Ok(_) => panic!("a channel has no parts"),
        }
    }
    assert_eq!(calls(&log), vec![]);
}

#[test]
fn room_counts_what_is_buffered() {
    let limit = isize::MAX as usize / 2;
    let (mut write, _) = writer();
    assert!(write.has_room(0));
    assert!(write.has_room(limit));
    assert!(!write.has_room(limit + 1));
    assert!(!write.has_room(usize::MAX));
    write.poll_write(b"abc");
    assert!(write.has_room(0));
    assert!(write.has_room(limit - 6));
    assert!(!write.has_room(limit - 5));
    assert_eq!(flush(&mut write, vec![Progress::Pending]), Progress::Pending);
    assert!(write.has_room(limit));
}

#[test]
fn queue_hands_out_what_was_pushed() {
    let mut queue: WriteQueue<u8> = WriteQueue::new();
    assert!(queue.has_room(10));
    queue.push(&[1, 2]);
    queue.push(&[3]);
    match queue.start_flush::<()>(LockAttempt::Acquired) {
        QueueAction::WriteChunk(data) => assert_eq!(data, vec![1, 2, 3]),
        _ => panic!("a write was to be asked for"),
    }
    assert!(matches!(
        queue.store_task::<()>(9, LockAttempt::Acquired),
        QueueAction::Restart
    ));
    assert!(matches!(
        queue.start_flush::<()>(LockAttempt::Acquired),
        QueueAction::PollTask(9)
    ));
    assert!(matches!(
        queue.task_polled(TaskPoll::Ready(Err("no"))),
        QueueAction::Finish(Progress::Ready(Err(IoError::Other("no"))))
    ));
}

#[test]
fn flush_tries_the_lock_before_each_use_of_the_write() {
    let (mut write, _) = writer();
    write.poll_write(b"x");
    let tried = Cell::new(0);
    let report = write.poll_flush(
        || {
            tried.set(tried.get() + 1);
            LockAttempt::Acquired
        },
        |_| TaskPoll::Ready(Ok(())),
    );
    assert_eq!(report, Progress::Ready(Ok(())));
    assert_eq!(tried.get(), 3);
}

#[test]
fn flush_is_pending_where_the_lock_is_held() {
    let (mut write, log) = writer();
    write.poll_write(b"x");
    let report = write.poll_flush(|| LockAttempt::Held, |_| TaskPoll::Ready(Ok(())));
    assert_eq!(report, Progress::Pending);
    assert_eq!(calls(&log), vec![]);
    assert_eq!(
        flush(&mut write, vec![Progress::Ready(Ok(()))]),
        Progress::Ready(Ok(()))
    );
}

#[test]
fn flush_asks_for_one_write_at_most() {
    let (mut write, log) = writer();
    write.poll_write(b"a");
    assert_eq!(flush(&mut write, vec![Progress::Pending]), Progress::Pending);
    write.poll_write(b"b");
    let polls = Cell::new(0);
    let report = write.poll_flush(
        || LockAttempt::Acquired,
        |_| {
            polls.set(polls.get() + 1);
            TaskPoll::Ready(Ok(()))
        },
    );
    assert_eq!(report, Progress::Ready(Ok(())));
    assert_eq!(polls.get(), 2);
    assert_eq!(
        calls(&log),
        vec![Call::Write(b"a".to_vec()), Call::Write(b"b".to_vec())]
    );
}

#[test]
fn shutdown_flushes_and_then_closes() {
    let (mut write, log) = writer();
    write.poll_write(b"bye");
    let report = write.poll_shutdown(
        || LockAttempt::Acquired,
        |_| TaskPoll::Ready(Ok(())),
        |_| TaskPoll::Ready(Ok(())),
    );
    assert_eq!(report, Progress::Ready(Ok(())));
    assert_eq!(calls(&log), vec![Call::Write(b"bye".to_vec()), Call::Close]);
}

#[test]
fn shutdown_does_not_close_what_is_not_flushed() {
    let (mut write, log) = writer();
    write.poll_write(b"bye");
    let report = write.poll_shutdown(
        || LockAttempt::Acquired,
        TaskPoll::Pending,
        |_| panic!("there is nothing to close yet"),
    );
    assert_eq!(report, Progress::Pending);
    let report = write.poll_shutdown(
        || LockAttempt::Acquired,
        |_| TaskPoll::Ready(Err("cut")),
        |_| panic!("there is nothing to close yet"),
    );
    assert_eq!(report, Progress::Ready(Err(IoError::Other("cut"))));
    assert_eq!(calls(&log), vec![Call::Write(b"bye".to_vec())]);
}

#[test]
fn pending_close_is_carried_to_its_end() {
    let (mut write, log) = writer();
    let polls = Cell::new(0);
    let poll_close = |close| {
        polls.set(polls.get() + 1);
        if polls.get() == 1 {
            TaskPoll::Pending(close)
        } else {
            TaskPoll::Ready(Ok(()))
        }
    };
    let poll = |_| panic!("there is nothing to write");
    let report = write.poll_shutdown(|| LockAttempt::Acquired, poll, poll_close);
    assert_eq!(report, Progress::Pending);
    let report = write.poll_shutdown(|| LockAttempt::Acquired, poll, poll_close);
    assert_eq!(report, Progress::Ready(Ok(())));
    assert_eq!(polls.get(), 2);
    assert_eq!(calls(&log), vec![Call::Close]);
}

#[test]
fn close_that_fails_late_is_reported() {
    let (mut write, log) = writer();
    for _ in 0..3 {
        let report = write.poll_shutdown(
            || LockAttempt::Acquired,
            |_| TaskPoll::Ready(Ok(())),
            TaskPoll::Pending,
        );
        assert_eq!(report, Progress::Pending);
    }
    let report = write.poll_shutdown(
        || LockAttempt::Acquired,
        |_| TaskPoll::Ready(Ok(())),
        |number| {
            assert_eq!(number, 1);
            TaskPoll::Ready(Err("late"))
        },
    );
    assert_eq!(report, Progress::Ready(Err(IoError::Other("late"))));
    assert_eq!(calls(&log), vec![Call::Close]);
}

#[test]
fn close_waits_while_more_is_flushed() {
    let (mut write, log) = writer();
    let report = write.poll_shutdown(
        || LockAttempt::Acquired,
        |_| TaskPoll::Ready(Ok(())),
        TaskPoll::Pending,
    );
    assert_eq!(report, Progress::Pending);
    write.poll_write(b"more");
    let report = write.poll_shutdown(
        || LockAttempt::Acquired,
        TaskPoll::Pending,
        |_| panic!("the flush comes first"),
    );
    assert_eq!(report, Progress::Pending);
    let report = write.poll_shutdown(
        || LockAttempt::Acquired,
        |_| TaskPoll::Ready(Ok(())),
        |number| {
            assert_eq!(number, 1);
            TaskPoll::Ready(Ok(()))
        },
    );
    assert_eq!(report, Progress::Ready(Ok(())));
    assert_eq!(calls(&log), vec![Call::Close, Call::Write(b"more".to_vec())]);
}

#[test]
fn pending_write_is_the_first_that_the_next_flush_polls() {
    let (mut write, _) = writer();
    write.poll_write(b"a");
    assert_eq!(flush(&mut write, vec![Progress::Pending]), Progress::Pending);
    write.poll_write(b"b");
    assert_eq!(expect_poll(write.start_flush(LockAttempt::Acquired)), Write(1));
}

#[test]
fn write_waits_until_the_last_one_was_ready() {
    let (mut write, log) = writer();
    write.poll_write(b"a");
    assert_eq!(flush(&mut write, vec![Progress::Pending]), Progress::Pending);
    write.poll_write(b"b");
    let polled = RefCell::new(vec![]);
    let report = write.poll_flush(
        || LockAttempt::Acquired,
        |task: Write| {
            polled.borrow_mut().push((task.0, calls(&log).len()));
            TaskPoll::Ready(Ok(()))
        },
    );
    assert_eq!(report, Progress::Ready(Ok(())));
    assert_eq!(polled.into_inner(), vec![(1, 1), (2, 2)]);
}

#[test]
fn failed_write_is_reported_once_and_not_sent_again() {
    let (mut write, log) = writer();
    write.poll_write(b"lost");
    assert_eq!(flush(&mut write, vec![Progress::Pending]), Progress::Pending);
    assert_eq!(
        flush(&mut write, vec![Progress::Ready(Err("gone"))]),
        Progress::Ready(Err(IoError::Other("gone")))
    );
    assert_eq!(flush(&mut write, vec![]), Progress::Ready(Ok(())));
    assert_eq!(flush(&mut write, vec![]), Progress::Ready(Ok(())));
    assert_eq!(calls(&log), vec![Call::Write(b"lost".to_vec())]);
}

#[test]
fn all_is_written_before_the_close() {
    let (mut write, log) = writer();
    write.poll_write(b"a");
    assert_eq!(flush(&mut write, vec![Progress::Pending]), Progress::Pending);
    write.poll_write(b"b");
    let ready = Cell::new(0);
    let report = write.poll_shutdown(
        || LockAttempt::Acquired,
        |_| {
            ready.set(ready.get() + 1);
            TaskPoll::Ready(Ok(()))
        },
        |_| {
            assert_eq!(ready.get(), 2);
            TaskPoll::Ready(Ok(()))
        },
    );
    assert_eq!(report, Progress::Ready(Ok(())));
    assert_eq!(
        calls(&log),
        vec![Call::Write(b"a".to_vec()), Call::Write(b"b".to_vec()), Call::Close]
    );
}

#[test]
fn nothing_but_a_flush_writes_and_nothing_but_a_shutdown_closes() {
    let (mut write, log) = writer();
    write.poll_write(b"ab");
    write.poll_write(b"");
    assert!(write.has_room(1));
    assert!(write.index(&[0]).is_err());
    assert_eq!(write.close_polled(TaskPoll::Ready(Ok(()))), Progress::Ready(Ok(())));
    assert!(matches!(
        write.close_after(Progress::Pending),
        ShutdownAction::Finish(Progress::Pending)
    ));
    assert_eq!(calls(&log), vec![]);
    assert_eq!(flush(&mut write, vec![Progress::Pending]), Progress::Pending);
    assert_eq!(calls(&log), vec![Call::Write(b"ab".to_vec())]);
}

#[test]
fn each_piece_is_handed_over_once() {
    let (mut write, log) = writer();
    write.poll_write(b"ab");
    assert_eq!(flush(&mut write, vec![Progress::Pending]), Progress::Pending);
    write.poll_write(b"c");
    assert_eq!(
        flush(&mut write, vec![Progress::Ready(Ok(())), Progress::Pending]),
        Progress::Pending
    );
    let pieces = vec![Call::Write(b"ab".to_vec()), Call::Write(b"c".to_vec())];
    assert_eq!(calls(&log), pieces);
    assert_eq!(
        flush(&mut write, vec![Progress::Ready(Ok(()))]),
        Progress::Ready(Ok(()))
    );
    assert_eq!(calls(&log), pieces);
}

#[test]
fn two_writes_are_buffered_like_one() {
    let (mut apart, apart_log) = writer();
    apart.poll_write(b"he");
    apart.poll_write(b"llo");
    let (mut joined, joined_log) = writer();
    joined.poll_write(b"hello");
    for write in [&mut apart, &mut joined] {
        assert_eq!(
            flush(write, vec![Progress::Ready(Ok(()))]),
            Progress::Ready(Ok(()))
        );
    }
    assert_eq!(calls(&apart_log), vec![Call::Write(b"hello".to_vec())]);
    assert_eq!(calls(&joined_log), calls(&apart_log));
}

#[test]
fn channel_is_asked_to_close_again_once_a_request_has_ended() {
    let (mut write, log) = writer();
    for polled in [TaskPoll::Pending(1), TaskPoll::Ready(Ok(()))] {
        assert!(matches!(
            write.close_after(Progress::Ready(Ok(()))),
            ShutdownAction::PollClose(1)
        ));
        write.close_polled(polled);
    }
    assert!(matches!(
        write.close_after(Progress::Ready(Ok(()))),
        ShutdownAction::PollClose(2)
    ));
    assert_eq!(calls(&log), vec![Call::Close, Call::Close]);
}
