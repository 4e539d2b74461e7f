use tokio::io::AsyncReadExt;
use wrpc_transport_host::read::QUEUE_CAPACITY;
use wrpc_transport_host::{
    forward_step, ForwardAction, ForwardEvent, Forwarder, HostAsyncRead, IndexError, IoError,
};

type Items = Vec<Result<Vec<u8>, &'static str>>;

fn run<T>(test: impl std::future::Future<Output = T>) -> T {
    tokio::runtime::Builder::new_current_thread()
        .build()
        .expect("a runtime")
        .block_on(test)
}

/// Runs a forwarder over a list of items, and returns how many it left unread.
async fn forward(forwarder: Forwarder<Items>) -> usize {
    let Forwarder { stream, sender } = forwarder;
    let mut items = stream.into_iter();
    let mut action = ForwardAction::ReadNext;
    loop {
        action = match action {
            ForwardAction::ReadNext => forward_step(ForwardEvent::Next(items.next())),
            ForwardAction::Send(item) => {
                let item = item.map_err(|IoError::Other(error)| std::io::Error::other(error));
                match sender.send(item).await {
                    Ok(()) => forward_step(ForwardEvent::Sent),
                    Err(_) => forward_step(ForwardEvent::ReceiverDropped),
                }
            }
            ForwardAction::Stop => return items.len(),
        };
    }
}

#[test]
fn queue_holds_one_hundred_and_twenty_eight_chunks() {
    let (_read, forwarder) = HostAsyncRead::new("stream");
    assert_eq!(QUEUE_CAPACITY, 128);
    assert_eq!(forwarder.stream, "stream");
    assert_eq!(forwarder.sender.max_capacity(), 128);
    assert_eq!(forwarder.sender.capacity(), 128);
}

#[test]
fn reader_gets_the_bytes_of_all_chunks() {
    let items: Items = vec![Ok(b"ab".to_vec()), Ok(b"c".to_vec()), Ok(b"def".to_vec())];
    let (mut read, forwarder) = HostAsyncRead::new(items);
    let bytes = run(async move {
        assert_eq!(forward(forwarder).await, 0);
        let mut bytes = vec![];
        read.inner.read_to_end(&mut bytes).await.expect("no error");
        bytes
    });
    assert_eq!(bytes, b"abcdef");
}

#[test]
fn reader_of_an_empty_stream_is_at_its_end() {
    let (mut read, forwarder) = HostAsyncRead::new(vec![]);
    let bytes = run(async move {
        forward(forwarder).await;
        let mut bytes = vec![];
        read.inner.read_to_end(&mut bytes).await.expect("no error");
        bytes
    });
    assert_eq!(bytes, b"");
}

#[test]
fn empty_chunk_ends_the_stream() {
    let items: Items = vec![Ok(b"ab".to_vec()), Ok(vec![]), Ok(b"cd".to_vec())];
    let (mut read, forwarder) = HostAsyncRead::new(items);
    let (left, bytes) = run(async move {
        let left = forward(forwarder).await;
        let mut bytes = vec![];
        read.inner.read_to_end(&mut bytes).await.expect("no error");
        (left, bytes)
    });
    assert_eq!(left, 1);
    assert_eq!(bytes, b"ab");
}

#[test]
fn error_is_passed_on_and_the_stream_goes_on() {
    let items: Items = vec![Ok(b"ab".to_vec()), Err("broken"), Ok(b"cd".to_vec())];
    let (mut read, forwarder) = HostAsyncRead::new(items);
    run(async move {
        forward(forwarder).await;
        let mut first = vec![];
        let error = read
            .inner
            .read_to_end(&mut first)
            .await
            .expect_err("the stream broke");
        assert_eq!(first, b"ab");
        assert_eq!(error.kind(), std::io::ErrorKind::Other);
        assert_eq!(error.to_string(), "broken");
        let mut second = vec![];
        read.inner.read_to_end(&mut second).await.expect("no error");
        assert_eq!(second, b"cd");
    });
}

#[test]
fn forwarder_stops_when_the_reader_is_gone() {
    let items: Items = vec![Ok(b"ab".to_vec()), Ok(b"cd".to_vec()), Ok(b"ef".to_vec())];
    let (read, forwarder) = HostAsyncRead::new(items);
    drop(read);
    assert_eq!(run(forward(forwarder)), 2);
}

#[test]
fn forwarder_decides_by_what_happened() {
    assert!(matches!(
        forward_step::<u8>(ForwardEvent::Next(None)),
        ForwardAction::Stop
    ));
    assert!(matches!(
        forward_step::<u8>(ForwardEvent::Next(Some(Ok(vec![])))),
        ForwardAction::Stop
    ));
    assert!(matches!(
        forward_step(ForwardEvent::Next(Some(Err(4u8)))),
        ForwardAction::Send(Err(IoError::Other(4u8)))
    ));
    match forward_step::<u8>(ForwardEvent::Next(Some(Ok(vec![1, 2])))) {
        ForwardAction::Send(Ok(chunk)) => assert_eq!(&chunk[..], &[1, 2]),
        _ => panic!("a chunk was to be sent"),
    }
    assert!(matches!(
        forward_step::<u8>(ForwardEvent::Sent),
        ForwardAction::ReadNext
    ));
    assert!(matches!(
        forward_step::<u8>(ForwardEvent::ReceiverDropped),
        ForwardAction::Stop
    ));
}

#[test]
fn reader_refuses_every_path() {
    let (read, _) = HostAsyncRead::new(());
    assert!(matches!(read.index(&[]), Err(IndexError::Unsupported)));
    assert!(matches!(read.index(&[5, 6]), Err(IndexError::Unsupported)));
}

#[test]
fn forwarder_reads_ahead_by_the_queue_and_one() {
    let items: Items = (0..200u8).map(|i| Ok(vec![i])).collect();
    let (read, forwarder) = HostAsyncRead::new(items);
    let Forwarder { stream, sender } = forwarder;
    let mut items = stream.into_iter();
    let mut action = ForwardAction::ReadNext;
    let full = loop {
        action = match action {
            ForwardAction::ReadNext => forward_step(ForwardEvent::Next(items.next())),
            ForwardAction::Send(Ok(chunk)) => match sender.try_send(Ok(chunk)) {
                Ok(()) => forward_step(ForwardEvent::Sent),
                Err(_) => break true,
            },
            _ => break false,
        };
    };
    assert!(full);
    assert_eq!(200 - items.len(), QUEUE_CAPACITY + 1);
    drop(read);
}

#[test]
fn forwarder_takes_one_more_item_once_the_reader_is_gone() {
    let items: Items = (1..6u8).map(|i| Ok(vec![i])).collect();
    let (read, forwarder) = HostAsyncRead::new(items);
    let Forwarder { stream, sender } = forwarder;
    let mut items = stream.into_iter();
    assert!(matches!(
        forward_step(ForwardEvent::Next(items.next())),
        ForwardAction::Send(Ok(_))
    ));
    assert!(matches!(
        forward_step::<&str>(ForwardEvent::Sent),
        ForwardAction::ReadNext
    ));
    drop(read);
    let rest: Items = items.collect();
    assert_eq!(run(forward(Forwarder { stream: rest, sender })), 3);
}
