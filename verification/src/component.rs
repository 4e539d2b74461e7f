//! Hosts whose calls go through one interface, as those imported by a component do.
//!
//! Every call takes a context, and channels are bare handles that the calls are given.
//! [`Bound`] binds such an interface to a context and makes a [`host::HostTransport`] of
//! it, so that clients and servers work on it as on any other.

use vstd::prelude::*;

use crate::client;
use crate::client::{FrameCall, InvokeError};
use crate::ends::{joined_ends, ChannelEnds};
use crate::host;
use crate::host::{Calls, ChannelCall, PossibleCalls};
use crate::line::{law_a_call_for_each_context, Cloning, ContextSource, Line, Shared};
use crate::outcome::IoError;
use crate::read::{queue_capacity, two_ends, QUEUE_CAPACITY};
use crate::server;

verus! {

/// An interface of the host.
pub trait HostTransport: Send + Sync + Clone {
    /// What each call takes along. [`Bound`] takes a clone of it for each.
    type Context: Send + Sync;

    /// What calls fail with.
    type Error;

    /// Handle to a channel.
    type Channel: Send + Sync;

    /// A request for a new channel, under way.
    type CreateFuture;

    /// A wait for an incoming channel, under way.
    type AcceptFuture;

    /// A request for the stream of a channel, under way.
    type ReadFuture;

    /// A write under way.
    type WriteFuture;

    /// A close request under way.
    type CloseFuture;

    /// Creates a channel for a client invocation.
    fn create_invocation_channel(&self, cx: Self::Context) -> Self::CreateFuture;

    /// Waits for an incoming channel and takes it off the queue.
    fn accept_channel(&self, cx: Self::Context) -> Self::AcceptFuture;

    /// Asks for the stream of chunks read from a channel.
    fn channel_read(&self, cx: Self::Context, channel: &Self::Channel) -> Self::ReadFuture;

    /// Writes a chunk of bytes to a channel.
    fn channel_write(
        &self,
        cx: Self::Context,
        channel: &Self::Channel,
        data: Vec<u8>,
    ) -> Self::WriteFuture;

    /// Closes a channel: there will be no more writes.
    fn channel_close(&self, cx: Self::Context, channel: &Self::Channel) -> Self::CloseFuture;
}

/// Whether this came out of a call of [`HostTransport::create_invocation_channel`] with a
/// clone of the context.
pub open spec fn creates<T: HostTransport>(
    transport: T,
    context: T::Context,
    create: T::CreateFuture,
) -> bool where T::Context: Clone {
    exists|cx: T::Context|
        cloned(context, cx) && #[trigger] call_ensures(
            T::create_invocation_channel,
            (&transport, cx),
            create,
        )
}

/// Whether this came out of a call of [`HostTransport::accept_channel`] with a clone of the
/// context.
pub open spec fn accepts<T: HostTransport>(
    transport: T,
    context: T::Context,
    accept: T::AcceptFuture,
) -> bool where T::Context: Clone {
    exists|cx: T::Context|
        cloned(context, cx) && #[trigger] call_ensures(
            T::accept_channel,
            (&transport, cx),
            accept,
        )
}

/// Whether this came out of a call of [`HostTransport::channel_read`] on this channel, with
/// a clone of the context.
pub open spec fn reads<T: HostTransport>(
    transport: T,
    context: T::Context,
    channel: T::Channel,
    read: T::ReadFuture,
) -> bool where T::Context: Clone {
    exists|cx: T::Context|
        cloned(context, cx) && #[trigger] call_ensures(
            T::channel_read,
            (&transport, cx, &channel),
            read,
        )
}

/// Whether this came out of a call of [`HostTransport::channel_write`] on this channel, with
/// a clone of the context and exactly these bytes.
pub open spec fn writes<T: HostTransport>(
    transport: T,
    context: T::Context,
    channel: T::Channel,
    bytes: Seq<u8>,
    write: T::WriteFuture,
) -> bool where T::Context: Clone {
    exists|cx: T::Context, data: Vec<u8>|
        cloned(context, cx) && data@ == bytes && #[trigger] call_ensures(
            T::channel_write,
            (&transport, cx, &channel, data),
            write,
        )
}

/// Whether this came out of a call of [`HostTransport::channel_close`] on this channel, with
/// a clone of the context.
pub open spec fn closes<T: HostTransport>(
    transport: T,
    context: T::Context,
    channel: T::Channel,
    close: T::CloseFuture,
) -> bool where T::Context: Clone {
    exists|cx: T::Context|
        cloned(context, cx) && #[trigger] call_ensures(
            T::channel_close,
            (&transport, cx, &channel),
            close,
        )
}

/// The calls that can be made on this channel through an interface, each with what it can
/// give: those of [`reads`], [`writes`] and [`closes`].
pub open spec fn interface_calls<T: HostTransport>(
    transport: T,
    context: T::Context,
    channel: T::Channel,
) -> PossibleCalls<T::ReadFuture, T::WriteFuture, T::CloseFuture> where T::Context: Clone {
    Set::new(
        |call: ChannelCall<T::ReadFuture, T::WriteFuture, T::CloseFuture>|
            match call {
                ChannelCall::Read(read) => reads(transport, context, channel, read),
                ChannelCall::Write(bytes, write) => writes(
                    transport,
                    context,
                    channel,
                    bytes,
                    write,
                ),
                ChannelCall::Close(close) => closes(transport, context, channel, close),
            },
    )
}

/// An interface together with the context of its calls.
pub struct Bound<T: HostTransport> {
    pub(crate) shared: Shared<T>,
    pub(crate) context: T::Context,
}

/// A channel together with the interface and the context of its calls.
pub struct BoundChannel<T: HostTransport> {
    pub(crate) line: Line<T, Cloning<T::Context>>,
}

/// A client on an interface of the host.
pub type Client<T> = client::Client<Bound<T>>;

/// A server on an interface of the host.
pub type Server<T, I, O> = server::Server<Bound<T>, I, O>;

impl<T: HostTransport> Bound<T> {
    /// The interface.
    pub closed spec fn transport(&self) -> T {
        self.shared.transport()
    }

    /// The context of its calls.
    pub closed spec fn context(&self) -> T::Context {
        self.context
    }

    /// Binds an interface to a context.
    pub fn new(transport: T, context: T::Context) -> (bound: Self)
        ensures
            bound.transport() == transport,
            bound.context() == context,
    {
        Bound { shared: Shared::new(transport), context }
    }
}

impl<T: HostTransport> Bound<T> where T::Context: Clone {
    /// Binds a channel that the interface gave to clones of the interface and the context.
    pub fn bind(&self, channel: T::Channel) -> (to: BoundChannel<T>)
        ensures
            bound_to(*self, channel, to),
            cloned(self.transport(), to.transport()),
            cloned(self.context(), to.context()),
            to.channel() == channel,
            to.contexts_used() == 0,
    {
        let contexts = Cloning::new(self.context.clone());
        BoundChannel { line: self.shared.line(contexts, channel) }
    }
}

/// Whether this is a channel bound to clones of an interface and its context, with no call
/// made on it.
pub open spec fn bound_to<T: HostTransport>(
    bound: Bound<T>,
    channel: T::Channel,
    to: BoundChannel<T>,
) -> bool where T::Context: Clone {
    &&& cloned(bound.transport(), to.transport())
    &&& cloned(bound.context(), to.context())
    &&& to.channel() == channel
    &&& to.made().len() == 0
}

/// Whether these are the ends, as yet unused, of a channel that a bound interface gave: its
/// stream was asked for on the interface itself, and writes go to the channel through a
/// clone of the interface.
pub open spec fn bound_ends<T: HostTransport + 'static>(
    bound: Bound<T>,
    channel: T::Channel,
    ends: ChannelEnds<Bound<T>>,
) -> bool where T::Context: Clone + 'static, T::Channel: 'static {
    &&& reads(bound.transport(), bound.context(), channel, ends.forwarder.stream)
    &&& exists|to: BoundChannel<T>| #[trigger]
        bound_to(bound, channel, to) && joined_ends(to, ends.forwarder.stream, ends)
}

impl<T: HostTransport + 'static> Bound<T> where T::Context: Clone + 'static, T::Channel: 'static {
    /// Opens a channel that the interface gave for reading and for writing.
    pub fn open(&self, channel: T::Channel) -> (ends: ChannelEnds<Bound<T>>)
        ensures
            bound_ends(*self, channel, ends),
    {
        let cx = self.context.clone();
        let ghost handed = cx;
        let contexts = Cloning::new(self.context.clone());
        let (stream, line) = self.shared.open(cx, contexts, channel);
        assert(call_ensures(T::channel_read, (&self.transport(), handed, &channel), stream));
        let to = BoundChannel { line };
        assert(bound_to(*self, channel, to));
        ChannelEnds::join(to, stream)
    }

    /// Goes on with an invocation once the interface has answered, as
    /// [`client::Client::channel_created`] does.
    pub fn channel_created<R>(&self, created: Result<T::Channel, T::Error>, request: R) -> (call:
        Result<FrameCall<Bound<T>, R>, InvokeError<T::Error>>)
        ensures
            match created {
                Ok(channel) => call matches Ok(frame) && bound_ends(*self, channel, frame.ends)
                    && frame.request == request,
                Err(error) => call == Err::<FrameCall<Bound<T>, R>, InvokeError<T::Error>>(
                    InvokeError::CreateChannel(error),
                ),
            },
    {
        match created {
            Ok(channel) => Ok(FrameCall { ends: self.open(channel), request }),
            Err(error) => Err(InvokeError::CreateChannel(error)),
        }
    }

    /// Ends accepting a channel, as [`server::HostListener::channel_accepted`] does.
    pub fn channel_accepted(&self, accepted: Result<T::Channel, T::Error>) -> (ends: Result<
        ChannelEnds<Bound<T>>,
        IoError<T::Error>,
    >)
        ensures
            match accepted {
                Ok(channel) => ends matches Ok(both) && bound_ends(*self, channel, both),
                Err(error) => ends == Err::<ChannelEnds<Bound<T>>, IoError<T::Error>>(
                    IoError::Other(error),
                ),
            },
    {
        match accepted {
            Ok(channel) => Ok(self.open(channel)),
            Err(error) => Err(IoError::Other(error)),
        }
    }
}

impl<T: HostTransport> BoundChannel<T> where T::Context: Clone {
    /// The interface.
    pub closed spec fn transport(&self) -> T {
        self.line.transport()
    }

    /// The context of its calls.
    pub closed spec fn context(&self) -> T::Context {
        self.line.contexts().context()
    }

    /// The channel itself.
    pub closed spec fn channel(&self) -> T::Channel {
        self.line.channel()
    }

    /// The calls made on it, in order.
    pub closed spec fn made(&self) -> Calls<T::ReadFuture, T::WriteFuture, T::CloseFuture> {
        self.line.calls()
    }

    /// The number of contexts taken for these calls.
    pub closed spec fn contexts_used(&self) -> nat {
        self.line.contexts().count()
    }
}

/// A bound interface shows what it holds.
pub(crate) proof fn law_bound_shows_what_it_holds<T: HostTransport>(bound: Bound<T>)
    ensures
        bound.transport() == bound.shared.transport(),
        bound.context() == bound.context,
{
}

/// A bound channel shows what it holds: its calls are those of its line, all of them.
pub(crate) proof fn law_bound_channel_shows_what_it_holds<T: HostTransport>(
    to: BoundChannel<T>,
) where T::Context: Clone
    ensures
        to.transport() == to.line.transport(),
        to.context() == to.line.contexts().context(),
        to.channel() == to.line.channel(),
        to.made() == to.line.calls(),
        host::Channel::calls(&to) == to.line.calls(),
        to.contexts_used() == to.line.contexts().issued(),
{
}

impl<T: HostTransport + 'static> host::HostTransport for Bound<T> where
    T::Context: Clone + 'static,
    T::Channel: 'static,
 {
    type Error = T::Error;

    type Channel = BoundChannel<T>;

    type CreateFuture = T::CreateFuture;

    type AcceptFuture = T::AcceptFuture;

    /// Calls [`HostTransport::create_invocation_channel`] with a clone of the context.
    fn create_invocation_channel(&self) -> (create: T::CreateFuture)
        ensures
            creates(self.transport(), self.context(), create),
    {
        let cx = self.context.clone();
        let ghost handed = cx;
        let create = self.shared.create(cx);
        assert(call_ensures(
            T::create_invocation_channel,
            (&self.transport(), handed),
            create,
        ));
        create
    }

    /// Calls [`HostTransport::accept_channel`] with a clone of the context.
    fn accept_channel(&self) -> (accept: T::AcceptFuture)
        ensures
            accepts(self.transport(), self.context(), accept),
    {
        let cx = self.context.clone();
        let ghost handed = cx;
        let accept = self.shared.accept(cx);
        assert(call_ensures(T::accept_channel, (&self.transport(), handed), accept));
        accept
    }
}

impl<T: HostTransport> host::Channel for BoundChannel<T> where T::Context: Clone {
    type ReadStream = T::ReadFuture;

    type WriteFuture = T::WriteFuture;

    type CloseFuture = T::CloseFuture;

    open spec fn calls(&self) -> Calls<T::ReadFuture, T::WriteFuture, T::CloseFuture> {
        self.made()
    }

    open spec fn possible(&self) -> PossibleCalls<
        T::ReadFuture,
        T::WriteFuture,
        T::CloseFuture,
    > {
        interface_calls(self.transport(), self.context(), self.channel())
    }

    /// Calls [`HostTransport::channel_read`] on this channel with a clone of the context.
    fn read(&mut self) -> (read: T::ReadFuture)
        ensures
            reads(old(self).transport(), old(self).context(), old(self).channel(), read),
            final(self).contexts_used() == old(self).contexts_used() + 1,
    {
        self.line.read()
    }

    /// Calls [`HostTransport::channel_write`] on this channel with a clone of the context
    /// and the bytes.
    fn write(&mut self, data: Vec<u8>) -> (write: T::WriteFuture)
        ensures
            writes(old(self).transport(), old(self).context(), old(self).channel(), data@, write),
            final(self).contexts_used() == old(self).contexts_used() + 1,
    {
        self.line.write(data)
    }

    /// Calls [`HostTransport::channel_close`] on this channel with a clone of the context.
    fn close(&mut self) -> (close: T::CloseFuture)
        ensures
            closes(old(self).transport(), old(self).context(), old(self).channel(), close),
            final(self).contexts_used() == old(self).contexts_used() + 1,
    {
        self.line.close()
    }
}

/// The stream that a forwarder reads once the host has answered. Where the host gives
/// none, the forwarder ends without sending anything.
pub fn stream_opened<S, E>(opened: Result<S, E>) -> (stream: Option<S>)
    ensures
        stream == (match opened {
            Ok(stream) => Some(stream),
            Err(_) => None,
        }),
{
    match opened {
        Ok(stream) => Some(stream),
        Err(_) => None,
    }
}

/// The calls that a client or a listener makes on a bound interface are calls of that
/// interface, with a clone of its context; and so are those that can be made on a bound
/// channel, with the bytes that they take.
pub proof fn law_bound_calls_reach_the_interface<T: HostTransport + 'static>(
    bound: Bound<T>,
    to: BoundChannel<T>,
) where T::Context: Clone + 'static, T::Channel: 'static
    ensures
        forall|create: T::CreateFuture| #[trigger]
            host::created_by(bound, create) ==> creates(bound.transport(), bound.context(), create),
        forall|accept: T::AcceptFuture| #[trigger]
            host::accepted_by(bound, accept) ==> accepts(
                bound.transport(),
                bound.context(),
                accept,
            ),
        forall|read: T::ReadFuture|
            #[trigger] host::Channel::possible(&to).contains(ChannelCall::Read(read)) ==> reads(
                to.transport(),
                to.context(),
                to.channel(),
                read,
            ),
        forall|bytes: Seq<u8>, write: T::WriteFuture|
            #[trigger] host::Channel::possible(&to).contains(ChannelCall::Write(bytes, write))
                ==> writes(to.transport(), to.context(), to.channel(), bytes, write),
        forall|close: T::CloseFuture|
            #[trigger] host::Channel::possible(&to).contains(ChannelCall::Close(close)) ==> closes(
                to.transport(),
                to.context(),
                to.channel(),
                close,
            ),
{
}

/// What a bound interface is asked for, the interface is asked for: each call is one of its
/// method of that name, on the interface itself, with a clone of the context.
pub proof fn law_bound_interface_is_asked<T: HostTransport + 'static>(bound: Bound<T>) where
    T::Context: Clone + 'static,
    T::Channel: 'static,

    ensures
        forall|create: T::CreateFuture| #[trigger]
            call_ensures(
                <Bound<T> as host::HostTransport>::create_invocation_channel,
                (&bound,),
                create,
            ) ==> exists|cx: T::Context|
                cloned(bound.context(), cx) && #[trigger] call_ensures(
                    T::create_invocation_channel,
                    (&bound.transport(), cx),
                    create,
                ),
        forall|accept: T::AcceptFuture| #[trigger]
            call_ensures(
                <Bound<T> as host::HostTransport>::accept_channel,
                (&bound,),
                accept,
            ) ==> exists|cx: T::Context|
                cloned(bound.context(), cx) && #[trigger] call_ensures(
                    T::accept_channel,
                    (&bound.transport(), cx),
                    accept,
                ),
{
}

/// What can be called on a bound channel is called on the interface: reading it and closing
/// it on its own handle, and writing to it with exactly the bytes written, all of them and in
/// order; each with a clone of the context. There are as many calls as contexts taken.
pub proof fn law_bound_channel_passes_on_what_it_is_given<T: HostTransport>(
    to: BoundChannel<T>,
) where T::Context: Clone
    ensures
        forall|read: T::ReadFuture| #[trigger]
            host::Channel::possible(&to).contains(ChannelCall::Read(read)) ==> exists|
                cx: T::Context,
            |
                cloned(to.context(), cx) && #[trigger] call_ensures(
                    T::channel_read,
                    (&to.transport(), cx, &to.channel()),
                    read,
                ),
        forall|bytes: Seq<u8>, write: T::WriteFuture| #[trigger]
            host::Channel::possible(&to).contains(ChannelCall::Write(bytes, write)) ==> exists|
                cx: T::Context,
                data: Vec<u8>,
            |
                cloned(to.context(), cx) && data@ == bytes && #[trigger] call_ensures(
                    T::channel_write,
                    (&to.transport(), cx, &to.channel(), data),
                    write,
                ),
        forall|close: T::CloseFuture| #[trigger]
            host::Channel::possible(&to).contains(ChannelCall::Close(close)) ==> exists|
                cx: T::Context,
            |
                cloned(to.context(), cx) && #[trigger] call_ensures(
                    T::channel_close,
                    (&to.transport(), cx, &to.channel()),
                    close,
                ),
        host::Channel::calls(&to) == to.made(),
        to.made().len() == to.contexts_used(),
{
    law_a_call_for_each_context(to.line);
}

/// What the ends of a channel on a bound interface are: its stream was asked for on the
/// interface itself, with a clone of the context; the forwarder has that stream and sends to
/// this reader; and the writer writes to that channel through clones of the interface and the
/// context, with no call made yet and nothing to write.
pub proof fn law_bound_ends_belong_to_the_channel<T: HostTransport + 'static>(
    bound: Bound<T>,
    channel: T::Channel,
    ends: ChannelEnds<Bound<T>>,
) where T::Context: Clone + 'static, T::Channel: 'static
    requires
        bound_ends(bound, channel, ends),
    ensures
        exists|cx: T::Context|
            cloned(bound.context(), cx) && #[trigger] call_ensures(
                T::channel_read,
                (&bound.transport(), cx, &channel),
                ends.forwarder.stream,
            ),
        exists|to: BoundChannel<T>|
            {
                &&& cloned(bound.transport(), #[trigger] to.transport())
                &&& cloned(bound.context(), to.context())
                &&& to.channel() == channel
                &&& ends.write@.possible == host::Channel::possible(&to)
            },
        ends.write@.calls.len() == 0,
        ends.write@.queue.buffered.len() == 0,
        ends.write@.queue.task is None,
        ends.write@.close is None,
        two_ends(ends.forwarder.sender, ends.read.inner),
        queue_capacity(ends.forwarder.sender) == QUEUE_CAPACITY,
{
    let to = choose|to: BoundChannel<T>| #[trigger]
        bound_to(bound, channel, to) && joined_ends(to, ends.forwarder.stream, ends);
    assert(cloned(bound.transport(), to.transport()));
}

} // verus!
