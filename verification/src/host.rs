//! What a host provides: channels, and the two ways to get one.
//!
//! A host call is started by a plain method call; what it returns is a future, or a
//! stream, that whoever runs the transport drives. Little is taken for granted of a host.
//! The calls on a channel are recorded, each with what it gave, so that contracts can say
//! which calls were made and that there were no others.

use vstd::prelude::*;

verus! {

/// A call made on a channel, with the bytes that it took and what it gave.
pub enum ChannelCall<R, F, D> {
    /// The channel was read, which gave this stream.
    Read(R),
    /// These bytes were written, which gave this write.
    Write(Seq<u8>, F),
    /// The channel was asked to close, which gave this request.
    Close(D),
}

/// Calls made on a channel, in order.
pub type Calls<R, F, D> = Seq<ChannelCall<R, F, D>>;

/// Calls that can be made on a channel.
pub type PossibleCalls<R, F, D> = Set<ChannelCall<R, F, D>>;

/// A bidirectional channel between two hosts.
///
/// [`Channel::calls`] and [`Channel::possible`] are known to proofs alone, and nothing runs
/// them. In an implementation that is not itself verified they stand for the calls made on
/// that channel, whatever their bodies.
pub trait Channel: Send + Sync {
    /// Stream of the chunks read from the channel.
    type ReadStream;

    /// A write under way.
    type WriteFuture;

    /// A close request under way.
    type CloseFuture;

    /// The calls made on the channel so far, in order.
    spec fn calls(&self) -> Calls<Self::ReadStream, Self::WriteFuture, Self::CloseFuture>;

    /// The calls that can be made on this channel, each with what it can give. They are those
    /// of one channel, and stay the same whatever is called on it.
    spec fn possible(&self) -> PossibleCalls<
        Self::ReadStream,
        Self::WriteFuture,
        Self::CloseFuture,
    >;

    /// Reads from the channel: a stream of chunks of bytes. An empty chunk indicates the
    /// end of the stream.
    fn read(&mut self) -> (stream: Self::ReadStream)
        ensures
            final(self).calls() == old(self).calls().push(ChannelCall::Read(stream)),
            final(self).possible() == old(self).possible(),
            old(self).possible().contains(ChannelCall::Read(stream)),
    ;

    /// Writes a chunk of bytes to the channel.
    fn write(&mut self, data: Vec<u8>) -> (write: Self::WriteFuture)
        ensures
            final(self).calls() == old(self).calls().push(ChannelCall::Write(data@, write)),
            final(self).possible() == old(self).possible(),
            old(self).possible().contains(ChannelCall::Write(data@, write)),
    ;

    /// Closes the channel: there will be no more writes.
    fn close(&mut self) -> (close: Self::CloseFuture)
        ensures
            final(self).calls() == old(self).calls().push(ChannelCall::Close(close)),
            final(self).possible() == old(self).possible(),
            old(self).possible().contains(ChannelCall::Close(close)),
    ;
}

/// The transport of a host.
pub trait HostTransport: Send + Sync {
    /// What host calls fail with.
    type Error;

    /// Handle to a channel.
    type Channel: Channel + Send + Sync + 'static;

    /// A request for a new channel, under way.
    type CreateFuture;

    /// A wait for an incoming channel, under way.
    type AcceptFuture;

    /// Creates a channel for a client invocation. The host routes it to the server's
    /// host, which queues it for [`HostTransport::accept_channel`].
    fn create_invocation_channel(&self) -> Self::CreateFuture;

    /// Waits for an incoming channel and takes it off the queue.
    fn accept_channel(&self) -> Self::AcceptFuture;
}

/// The write that an adapter for `T` keeps.
pub type WriteOf<T> = <<T as HostTransport>::Channel as Channel>::WriteFuture;

/// The stream that an adapter for `T` reads.
pub type ReadOf<T> = <<T as HostTransport>::Channel as Channel>::ReadStream;

/// The close request that an adapter for `T` makes.
pub type CloseOf<T> = <<T as HostTransport>::Channel as Channel>::CloseFuture;

/// A call on the channel of an adapter for `T`.
pub type CallOf<T> = ChannelCall<ReadOf<T>, WriteOf<T>, CloseOf<T>>;

/// Whether the request came out of a call of [`HostTransport::create_invocation_channel`].
pub open spec fn created_by<T: HostTransport>(transport: T, create: T::CreateFuture) -> bool {
    call_ensures(T::create_invocation_channel, (&transport,), create)
}

/// Whether the wait came out of a call of [`HostTransport::accept_channel`].
pub open spec fn accepted_by<T: HostTransport>(transport: T, accept: T::AcceptFuture) -> bool {
    call_ensures(T::accept_channel, (&transport,), accept)
}

} // verus!
