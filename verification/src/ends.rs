//! The two ends that a transport makes of a channel.

use vstd::prelude::*;

use crate::flush::new_writer;
use crate::host::{CallOf, Channel, ChannelCall, CloseOf, HostTransport, ReadOf, WriteOf};
use crate::read::{queue_capacity, two_ends, Forwarder, HostAsyncRead, QUEUE_CAPACITY};
use crate::write::HostAsyncWrite;

verus! {

/// The ends of one channel.
pub struct ChannelEnds<T: HostTransport> {
    /// Writes to the channel.
    pub write: HostAsyncWrite<T>,
    /// Reads from the channel, what the forwarder sends.
    pub read: HostAsyncRead,
    /// Feeds the reader, and has yet to be run.
    pub forwarder: Forwarder<ReadOf<T>>,
}

/// Whether these are ends, as yet unused, that write to this channel and read this stream:
/// what the forwarder takes from the stream is what the reader hands out, and nothing has
/// been called on the channel since.
pub open spec fn joined_ends<T: HostTransport>(
    channel: T::Channel,
    stream: ReadOf<T>,
    ends: ChannelEnds<T>,
) -> bool {
    &&& ends.forwarder.stream == stream
    &&& queue_capacity(ends.forwarder.sender) == QUEUE_CAPACITY
    &&& two_ends(ends.forwarder.sender, ends.read.inner)
    &&& ends.write@ == new_writer::<ReadOf<T>, WriteOf<T>, CloseOf<T>>(
        channel.calls(),
        channel.possible(),
    )
}

/// Whether these are the ends of this channel, as yet unused: it has been read, and nothing
/// else has been called on it.
pub open spec fn fresh_ends<T: HostTransport>(channel: T::Channel, ends: ChannelEnds<T>) -> bool {
    let read: CallOf<T> = ChannelCall::Read(ends.forwarder.stream);
    &&& channel.possible().contains(read)
    &&& queue_capacity(ends.forwarder.sender) == QUEUE_CAPACITY
    &&& two_ends(ends.forwarder.sender, ends.read.inner)
    &&& ends.write@ == new_writer::<ReadOf<T>, WriteOf<T>, CloseOf<T>>(
        channel.calls().push(read),
        channel.possible(),
    )
}

/// What the ends of a channel are: the channel was read once and nothing else was called on
/// it, the forwarder has the stream that came of that, sends to this reader, and the writer
/// writes to the same channel and has nothing to write.
pub proof fn law_ends_belong_to_the_channel<T: HostTransport>(
    channel: T::Channel,
    ends: ChannelEnds<T>,
)
    requires
        fresh_ends(channel, ends),
    ensures
        ends.write@.calls == channel.calls().push(ChannelCall::Read(ends.forwarder.stream)),
        channel.possible().contains(ChannelCall::Read(ends.forwarder.stream)),
        ends.write@.possible == channel.possible(),
        ends.write@.queue.buffered.len() == 0,
        ends.write@.queue.task is None,
        ends.write@.close is None,
        two_ends(ends.forwarder.sender, ends.read.inner),
        queue_capacity(ends.forwarder.sender) == QUEUE_CAPACITY,
{
}

/// What the ends joined of a channel and a stream are: the forwarder has that stream and sends
/// to this reader, and the writer writes to that channel, on which nothing was called, and
/// has nothing to write.
pub proof fn law_joined_ends_belong_together<T: HostTransport>(
    channel: T::Channel,
    stream: ReadOf<T>,
    ends: ChannelEnds<T>,
)
    requires
        joined_ends(channel, stream, ends),
    ensures
        ends.forwarder.stream == stream,
        ends.write@.calls == channel.calls(),
        ends.write@.possible == channel.possible(),
        ends.write@.queue.buffered.len() == 0,
        ends.write@.queue.task is None,
        ends.write@.close is None,
        two_ends(ends.forwarder.sender, ends.read.inner),
        queue_capacity(ends.forwarder.sender) == QUEUE_CAPACITY,
{
}

impl<T: HostTransport> ChannelEnds<T> {
    /// Opens a channel for reading and for writing.
    pub fn open(channel: T::Channel) -> (ends: Self)
        ensures
            fresh_ends(channel, ends),
    {
        let mut channel = channel;
        let stream = channel.read();
        ChannelEnds::join(channel, stream)
    }

    /// Makes the ends of a channel that is read through this stream.
    pub fn join(channel: T::Channel, stream: ReadOf<T>) -> (ends: Self)
        ensures
            joined_ends(channel, stream, ends),
    {
        let (read, forwarder) = HostAsyncRead::new(stream);
        let write = HostAsyncWrite::new(channel);
        ChannelEnds { write, read, forwarder }
    }
}

} // verus!
