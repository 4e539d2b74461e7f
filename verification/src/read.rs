//! The reading end of a host channel.
//!
//! A forwarder takes chunks from the channel's stream and sends them through a bounded
//! queue to the reader, which hands their bytes out.

use bytes::Bytes;
use tokio::sync::mpsc::Sender;
use tokio_stream::wrappers::ReceiverStream;
use tokio_util::io::StreamReader;
use vstd::prelude::*;

use crate::buffer::{chunk_bytes, chunk_from_vec};
use crate::index::IndexError;
use crate::outcome::IoError;

verus! {

/// `std::io::Error`, the error of a byte stream.
#[verifier::external_type_specification]
#[verifier::external_body]
pub struct ExIoError(std::io::Error);

/// `tokio::sync::mpsc::Sender`, the sending end of a bounded queue.
#[verifier::external_type_specification]
#[verifier::external_body]
#[verifier::reject_recursive_types(T)]
pub struct ExSender<T>(Sender<T>);

/// `tokio_stream::wrappers::ReceiverStream`, the receiving end of a queue as a stream.
#[verifier::external_type_specification]
#[verifier::external_body]
#[verifier::reject_recursive_types(T)]
pub struct ExReceiverStream<T>(ReceiverStream<T>);

/// `tokio_util::io::StreamReader`, a stream of chunks as a byte stream.
#[verifier::external_type_specification]
#[verifier::external_body]
#[verifier::reject_recursive_types(S)]
#[verifier::reject_recursive_types(B)]
pub struct ExStreamReader<S, B>(StreamReader<S, B>);

/// What goes through the queue: a chunk, or why there is none.
pub type Chunk = Result<Bytes, std::io::Error>;

/// The byte stream at the receiving end of the queue.
pub type ChunkReader = StreamReader<ReceiverStream<Chunk>, Bytes>;

/// The number of chunks that wait between the forwarder and the reader at most.
pub const QUEUE_CAPACITY: usize = 128;

/// The number of items that the queue behind a sender was made to hold.
pub uninterp spec fn queue_capacity(sender: Sender<Chunk>) -> nat;

/// Whether the sender and the reader are the two ends of one queue: the reader hands out,
/// in order, what the sender sends.
pub uninterp spec fn two_ends(sender: Sender<Chunk>, reader: ChunkReader) -> bool;

/// `tokio::sync::mpsc::channel` makes the two ends of a new queue, which holds as many items
/// as asked for; its receiving end is put behind a `StreamReader`.
///
/// A capacity of zero, or one above the `usize::MAX >> 3` permits of a semaphore, makes
/// it panic.
#[verifier::external_body]
fn chunk_queue(capacity: usize) -> (ends: (Sender<Chunk>, ChunkReader))
    requires
        0 < capacity <= usize::MAX / 8,
    ensures
        queue_capacity(ends.0) == capacity,
        two_ends(ends.0, ends.1),
{
    let (sender, receiver) = tokio::sync::mpsc::channel(capacity);
    (sender, StreamReader::new(ReceiverStream::new(receiver)))
}

/// Takes chunks from a stream and sends them to a reader.
pub struct Forwarder<S> {
    /// Where the chunks come from.
    pub stream: S,
    /// Where they go.
    pub sender: Sender<Chunk>,
}

/// Hands out the bytes of the chunks that a [`Forwarder`] sends.
pub struct HostAsyncRead {
    /// The byte stream behind the queue.
    pub inner: ChunkReader,
}

impl HostAsyncRead {
    /// A reader of this stream, and the forwarder that feeds it and has yet to be run.
    pub fn new<S>(stream: S) -> (ends: (Self, Forwarder<S>))
        ensures
            ends.1.stream == stream,
            queue_capacity(ends.1.sender) == QUEUE_CAPACITY,
            two_ends(ends.1.sender, ends.0.inner),
    {
        let (sender, inner) = chunk_queue(QUEUE_CAPACITY);
        (HostAsyncRead { inner }, Forwarder { stream, sender })
    }

    /// A channel has no parts: every path is refused.
    pub fn index(&self, _path: &[usize]) -> (part: Result<HostAsyncRead, IndexError>)
        ensures
            part == Err::<HostAsyncRead, IndexError>(IndexError::Unsupported),
    {
        Err(IndexError::Unsupported)
    }
}

/// What may happen to a forwarder.
pub enum ForwardEvent<E> {
    /// The stream gave this, or has ended.
    Next(Option<Result<Vec<u8>, E>>),
    /// The reader's queue took what was sent.
    Sent,
    /// The reader is gone.
    ReceiverDropped,
}

/// What a forwarder does next.
pub enum ForwardAction<E> {
    /// Take the next chunk from the stream.
    ReadNext,
    /// Send this to the reader.
    Send(Result<Bytes, IoError<E>>),
    /// End, which ends the reader's byte stream after what was sent.
    Stop,
}

/// A [`ForwardEvent`], with chunks as sequences of bytes.
pub enum ForwardInput<E> {
    Next(Option<Result<Seq<u8>, E>>),
    Sent,
    ReceiverDropped,
}

/// A [`ForwardAction`], with chunks as sequences of bytes.
#[verifier::ext_equal]
pub enum ForwardReply<E> {
    ReadNext,
    Send(Result<Seq<u8>, IoError<E>>),
    Stop,
}

impl<E> View for ForwardEvent<E> {
    type V = ForwardInput<E>;

    open spec fn view(&self) -> ForwardInput<E> {
        match *self {
            ForwardEvent::Next(None) => ForwardInput::Next(None),
            ForwardEvent::Next(Some(Ok(chunk))) => ForwardInput::Next(Some(Ok(chunk@))),
            ForwardEvent::Next(Some(Err(error))) => ForwardInput::Next(Some(Err(error))),
            ForwardEvent::Sent => ForwardInput::Sent,
            ForwardEvent::ReceiverDropped => ForwardInput::ReceiverDropped,
        }
    }
}

impl<E> View for ForwardAction<E> {
    type V = ForwardReply<E>;

    open spec fn view(&self) -> ForwardReply<E> {
        match *self {
            ForwardAction::ReadNext => ForwardReply::ReadNext,
            ForwardAction::Send(Ok(chunk)) => ForwardReply::Send(Ok(chunk_bytes(chunk))),
            ForwardAction::Send(Err(error)) => ForwardReply::Send(Err(error)),
            ForwardAction::Stop => ForwardReply::Stop,
        }
    }
}

/// Whether this item indicates the end of the stream: an empty chunk does.
pub open spec fn ends_stream<E>(item: Result<Seq<u8>, E>) -> bool {
    item matches Ok(chunk) && chunk.len() == 0
}

/// The item as the reader gets it: a chunk unchanged, an error wrapped.
pub open spec fn relayed<E>(item: Result<Seq<u8>, E>) -> Result<Seq<u8>, IoError<E>> {
    match item {
        Ok(chunk) => Ok(chunk),
        Err(error) => Err(IoError::Other(error)),
    }
}

/// What a forwarder does after each event.
pub open spec fn forward_reply<E>(input: ForwardInput<E>) -> ForwardReply<E> {
    match input {
        ForwardInput::Next(Some(item)) => if ends_stream(item) {
            ForwardReply::Stop
        } else {
            ForwardReply::Send(relayed(item))
        },
        ForwardInput::Next(None) => ForwardReply::Stop,
        ForwardInput::Sent => ForwardReply::ReadNext,
        ForwardInput::ReceiverDropped => ForwardReply::Stop,
    }
}

/// Decides what a forwarder does after an event. It begins with [`ForwardAction::ReadNext`].
pub fn forward_step<E>(event: ForwardEvent<E>) -> (action: ForwardAction<E>)
    ensures
        action@ == forward_reply(event@),
        match event {
            ForwardEvent::Next(Some(Ok(data))) => if data@.len() == 0 {
                action is Stop
            } else {
                action matches ForwardAction::Send(Ok(chunk)) && chunk_bytes(chunk) == data@
            },
            ForwardEvent::Next(Some(Err(error))) => action == ForwardAction::<E>::Send(
                Err(IoError::Other(error)),
            ),
            ForwardEvent::Next(None) => action is Stop,
            ForwardEvent::Sent => action is ReadNext,
            ForwardEvent::ReceiverDropped => action is Stop,
        },
{
    match event {
        ForwardEvent::Next(Some(Ok(chunk))) => {
            if chunk.len() == 0 {
                ForwardAction::Stop
            } else {
                ForwardAction::Send(Ok(chunk_from_vec(chunk)))
            }
        },
        ForwardEvent::Next(Some(Err(error))) => ForwardAction::Send(Err(IoError::Other(error))),
        ForwardEvent::Next(None) => ForwardAction::Stop,
        ForwardEvent::Sent => ForwardAction::ReadNext,
        ForwardEvent::ReceiverDropped => ForwardAction::Stop,
    }
}

} // verus!
