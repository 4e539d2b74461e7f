use std::sync::{Arc, Mutex};

use tokio::io::AsyncReadExt;
use wrpc_transport_host::component::{self, stream_opened, Bound};
use wrpc_transport_host::host::{Calls, PossibleCalls};
use wrpc_transport_host::{
    forward_step, AcceptError, Channel, Client, ForwardAction, ForwardEvent, HostListener,
    HostTransport, InvokeError, IoError, LockAttempt, LoopStep, Progress, Server, TaskPoll,
    WriteAction,
};

/// A host within the process: each write to a channel is an item of the peer's stream.
#[derive(Clone, Debug, Default)]
struct LoopHost {
    created: Arc<Mutex<usize>>,
}

struct LoopChannel {
    number: usize,
    chunks: Arc<Mutex<Vec<Vec<u8>>>>,
}

impl Channel for LoopChannel {
    type ReadStream = (usize, Arc<Mutex<Vec<Vec<u8>>>>);
    type WriteFuture = ();
    type CloseFuture = ();

    fn calls(&self) -> Calls<Self::ReadStream, (), ()> {
        unreachable!("known to proofs alone")
    }

    fn possible(&self) -> PossibleCalls<Self::ReadStream, (), ()> {
        unreachable!("known to proofs alone")
    }

    fn read(&mut self) -> Self::ReadStream {
        (self.number, self.chunks.clone())
    }

    fn write(&mut self, data: Vec<u8>) {
        self.chunks.lock().unwrap().push(data);
    }

    fn close(&mut self) {
        self.chunks.lock().unwrap().push(vec![]);
    }
}

impl HostTransport for LoopHost {
    type Error = &'static str;
    type Channel = LoopChannel;
    type CreateFuture = LoopChannel;
    type AcceptFuture = LoopChannel;

    fn create_invocation_channel(&self) -> LoopChannel {
        let mut created = self.created.lock().unwrap();
        *created += 1;
        LoopChannel { number: *created, chunks: Arc::default() }
    }

    fn accept_channel(&self) -> LoopChannel {
        LoopChannel { number: 0, chunks: Arc::default() }
    }
}

#[test]
fn every_invocation_asks_for_a_channel() {
    let client = Client::new(LoopHost::default());
    assert_eq!(client.invoke().number, 1);
    assert_eq!(client.invoke().number, 2);
    assert_eq!(client.clone().invoke().number, 3);
}

#[test]
fn invocation_goes_through_both_ends_of_its_channel() {
    let client = Client::new(LoopHost::default());
    let channel = client.invoke();
    let chunks = channel.chunks.clone();
    let mut call = match Client::<LoopHost>::channel_created(Ok(channel), ("instance", "func")) {
        Ok(call) => call,
        Err(_) => panic!("the channel was created"),
    };
    assert_eq!(call.request, ("instance", "func"));
    assert_eq!(call.ends.forwarder.stream.0, 1);
    assert_eq!(call.ends.forwarder.sender.max_capacity(), 128);
    assert_eq!(call.ends.write.poll_write(b"hello"), 5);
    assert!(matches!(
        call.ends.write.start_flush(LockAttempt::Acquired),
        WriteAction::StoreTask(())
    ));
    assert_eq!(*chunks.lock().unwrap(), vec![b"hello".to_vec()]);
}

#[test]
fn invocation_without_a_channel_fails() {
    match Client::<LoopHost>::channel_created(Err("no port"), ()) {
        Err(error) => {
            assert_eq!(error, InvokeError::CreateChannel("no port"));
            let (context, cause) = error.into_parts();
            assert_eq!(context, "failed to create invocation channel");
            assert_eq!(cause, "no port");
        }
        Ok(_) => panic!("there is no channel"),
    }
}

#[test]
fn request_that_cannot_be_sent_fails() {
    assert_eq!(Client::<LoopHost>::request_sent(Ok(5)), Ok(5));
    let error = Client::<LoopHost>::request_sent::<u8>(Err("cut")).expect_err("it was cut");
    assert_eq!(error, InvokeError::SetUp("cut"));
    let (context, cause) = error.into_parts();
    assert_eq!(context, "failed to set up client invocation");
    assert_eq!(cause, "cut");
}

#[test]
fn listener_takes_channels_from_the_host() {
    let server: Server<LoopHost, u8, u8> = Server::new(LoopHost::default());
    let _routes = server.transport_server();
    let channel = server.accept().accept();
    let chunks = channel.chunks.clone();
    let mut ends = match HostListener::<LoopHost>::channel_accepted(Ok(channel)) {
        Ok(ends) => ends,
        Err(_) => panic!("the channel was accepted"),
    };
    assert_eq!(ends.forwarder.stream.0, 0);
    ends.write.poll_write(b"reply");
    assert!(matches!(
        ends.write.start_flush(LockAttempt::Acquired),
        WriteAction::StoreTask(())
    ));
    assert_eq!(*chunks.lock().unwrap(), vec![b"reply".to_vec()]);
}

#[test]
fn listener_reports_the_error_of_the_host() {
    assert!(matches!(
        HostListener::<LoopHost>::channel_accepted(Err("closed")),
        Err(IoError::Other("closed"))
    ));
}

#[test]
fn failure_to_accept_is_told_in_words() {
    assert_eq!(Server::<LoopHost, u8, u8>::accepted(Ok(())), Ok(()));
    assert_eq!(
        Server::<LoopHost, u8, u8>::accepted(Err("unsupported version byte: 7".to_string())),
        Err(AcceptError {
            message: "failed to accept connection: unsupported version byte: 7".to_string()
        })
    );
}

#[test]
fn accept_loop_ends_with_the_first_failure() {
    let outcomes = [Ok(()), Ok(()), Err("first"), Ok(()), Err("second")];
    let mut accepted = 0;
    let mut end = None;
    for outcome in outcomes {
        match Server::<LoopHost, u8, u8>::accept_loop(outcome) {
            LoopStep::AcceptNext => accepted += 1,
            LoopStep::Stop(error) => {
                end = Some(error);
                break;
            }
        }
    }
    assert_eq!(accepted, 2);
    assert_eq!(end, Some("first"));
}

#[test]
fn what_is_written_at_one_end_is_read_at_the_other() {
    let client = Client::new(LoopHost::default());
    let mut ends = match Client::<LoopHost>::channel_created(Ok(client.invoke()), ()) {
        Ok(call) => call.ends,
        Err(_) => panic!("the channel was created"),
    };
    for piece in [&b"one "[..], b"", b"two ", b"three"] {
        ends.write.poll_write(piece);
        let report = ends
            .write
            .poll_flush(|| LockAttempt::Acquired, |()| TaskPoll::Ready(Ok(())));
        assert_eq!(report, Progress::Ready(Ok(())));
    }
    ends.write.close_after(Progress::Ready(Ok(())));
    let (_, chunks) = ends.forwarder.stream;
    let mut items = std::mem::take(&mut *chunks.lock().unwrap()).into_iter();
    let sender = ends.forwarder.sender;
    let mut read = ends.read;
    let bytes = tokio::runtime::Builder::new_current_thread()
        .build()
        .expect("a runtime")
        .block_on(async move {
            loop {
                let next = items.next().map(Ok::<Vec<u8>, &'static str>);
                match forward_step(ForwardEvent::Next(next)) {
                    ForwardAction::Send(Ok(chunk)) => {
                        sender.send(Ok(chunk)).await.expect("the reader is there");
                    }
                    ForwardAction::Stop => break,
                    _ => panic!("no other step is due"),
                }
            }
            drop(sender);
            let mut bytes = vec![];
            read.inner.read_to_end(&mut bytes).await.expect("no error");
            bytes
        });
    assert_eq!(bytes, b"one two three");
}

/// An interface that records its calls.
#[derive(Clone, Debug, Default)]
struct Interface {
    log: Arc<Mutex<Vec<String>>>,
}

impl Interface {
    fn call(&self, call: String) {
        self.log.lock().unwrap().push(call);
    }
}

impl component::HostTransport for Interface {
    type Context = &'static str;
    type Error = u8;
    type Channel = u32;
    type CreateFuture = u32;
    type AcceptFuture = u32;
    type ReadFuture = u32;
    type WriteFuture = u32;
    type CloseFuture = u32;

    fn create_invocation_channel(&self, cx: &'static str) -> u32 {
        self.call(format!("create {cx}"));
        11
    }

    fn accept_channel(&self, cx: &'static str) -> u32 {
        self.call(format!("accept {cx}"));
        22
    }

    fn channel_read(&self, cx: &'static str, channel: &u32) -> u32 {
        self.call(format!("read {cx} {channel}"));
        33
    }

    fn channel_write(&self, cx: &'static str, channel: &u32, data: Vec<u8>) -> u32 {
        self.call(format!("write {cx} {channel} {data:?}"));
        44
    }

    fn channel_close(&self, cx: &'static str, channel: &u32) -> u32 {
        self.call(format!("close {cx} {channel}"));
        55
    }
}

#[test]
fn bound_interface_gets_its_context_with_every_call() {
    let interface = Interface::default();
    let client: component::Client<Interface> =
        Client::new(Bound::new(interface.clone(), "cx"));
    assert_eq!(client.invoke(), 11);
    let server: component::Server<Interface, u8, u8> =
        Server::new(Bound::new(interface.clone(), "other"));
    assert_eq!(server.accept().accept(), 22);
    let mut ends = match client.host().channel_created(Ok(7), "request") {
        Ok(call) => {
            assert_eq!(call.request, "request");
            call.ends
        }
        Err(_) => panic!("the channel was created"),
    };
    assert_eq!(ends.forwarder.stream, 33);
    assert_eq!(ends.forwarder.sender.max_capacity(), 128);
    ends.write.poll_write(&[1, 2]);
    assert!(matches!(
        ends.write.start_flush(LockAttempt::Acquired),
        WriteAction::StoreTask(44)
    ));
    assert!(matches!(
        ends.write.close_after(Progress::Ready(Ok(()))),
        wrpc_transport_host::ShutdownAction::PollClose(55)
    ));
    let accepted = match server.accept().host().channel_accepted(Ok(8)) {
        Ok(ends) => ends,
        Err(_) => panic!("the channel was accepted"),
    };
    assert_eq!(accepted.forwarder.stream, 33);
    assert_eq!(
        *interface.log.lock().unwrap(),
        vec![
            "create cx".to_string(),
            "accept other".to_string(),
            "read cx 7".to_string(),
            "write cx 7 [1, 2]".to_string(),
            "close cx 7".to_string(),
            "read other 8".to_string(),
        ]
    );
}

#[test]
fn bound_interface_reports_its_errors() {
    let bound = Bound::new(Interface::default(), "cx");
    assert!(matches!(
        bound.channel_created(Err(9), ()),
        Err(InvokeError::CreateChannel(9))
    ));
    assert!(matches!(bound.channel_accepted(Err(4)), Err(IoError::Other(4))));
    assert!(bound.channel_created(Ok(1), ()).is_ok());
}

#[test]
fn bound_channel_is_a_channel_like_any_other() {
    let interface = Interface::default();
    let channel = Bound::new(interface.clone(), "cx").bind(7);
    let mut ends = match Client::<Bound<Interface>>::channel_created(Ok(channel), ()) {
        Ok(call) => call.ends,
        Err(_) => panic!("the channel was created"),
    };
    assert_eq!(ends.forwarder.stream, 33);
    ends.write.poll_write(&[3]);
    assert!(matches!(
        ends.write.start_flush(LockAttempt::Acquired),
        WriteAction::StoreTask(44)
    ));
    assert_eq!(
        *interface.log.lock().unwrap(),
        vec!["read cx 7".to_string(), "write cx 7 [3]".to_string()]
    );
}

#[test]
fn next_accept_begins_after_a_connection_was_accepted() {
    let mut under_way = 0;
    let mut begun = 0;
    for outcome in [Ok(()), Ok(()), Err("gone")] {
        under_way += 1;
        begun += 1;
        assert_eq!(under_way, 1);
        let step = Server::<LoopHost, u8, u8>::accept_loop(outcome);
        under_way -= 1;
        match step {
            LoopStep::AcceptNext => assert!(outcome.is_ok()),
            LoopStep::Stop(error) => assert_eq!(Err(error), outcome),
        }
    }
    assert_eq!(begun, 3);
}

#[test]
fn bytes_of_two_channels_do_not_mix() {
    let client = Client::new(LoopHost::default());
    let mut first = match Client::<LoopHost>::channel_created(Ok(client.invoke()), ()) {
        Ok(call) => call.ends,
        Err(_) => panic!("the channel was created"),
    };
    let mut second = match Client::<LoopHost>::channel_created(Ok(client.invoke()), ()) {
        Ok(call) => call.ends,
        Err(_) => panic!("the channel was created"),
    };
    let (one, two) = tokio::runtime::Builder::new_current_thread()
        .build()
        .expect("a runtime")
        .block_on(async move {
            let chunk = |bytes: &'static [u8]| Ok(bytes::Bytes::from_static(bytes));
            first.forwarder.sender.send(chunk(b"one")).await.expect("there is a reader");
            second.forwarder.sender.send(chunk(b"two")).await.expect("there is a reader");
            drop(first.forwarder);
            drop(second.forwarder);
            let mut one = vec![];
            first.read.inner.read_to_end(&mut one).await.expect("no error");
            let mut two = vec![];
            second.read.inner.read_to_end(&mut two).await.expect("no error");
            (one, two)
        });
    assert_eq!(one, b"one");
    assert_eq!(two, b"two");
}

#[test]
fn stream_that_the_host_refuses_is_not_read() {
    assert_eq!(stream_opened::<&str, u8>(Ok("stream")), Some("stream"));
    assert_eq!(stream_opened::<&str, u8>(Err(1)), None);
}
