//! The calls that go through an interface of the host, each with a context of its own.
//!
//! An interface is shared by all its channels, so a call on it leaves no trace in what
//! contracts can speak of. What a call does take is a context. Here contexts cannot be
//! cloned: one comes from a [`ContextSource`], which counts them, and goes with one call. So
//! no more calls are made than contexts are taken.

use vstd::prelude::*;

use crate::component::HostTransport;
use crate::host::{Calls, ChannelCall};

verus! {

/// Hands out the contexts of calls, and counts them.
pub trait ContextSource<X> {
    /// The context that those handed out stand for.
    spec fn origin(&self) -> X;

    /// The contexts that it can hand out.
    spec fn supply(&self) -> Set<X>;

    /// The number of contexts that it has handed out.
    spec fn issued(&self) -> nat;

    /// Hands out a context.
    fn next(&mut self) -> (cx: X)
        ensures
            final(self).issued() == old(self).issued() + 1,
            final(self).supply() == old(self).supply(),
            final(self).origin() == old(self).origin(),
            old(self).supply().contains(cx),
    ;
}

/// Hands out clones of a context.
pub struct Cloning<X> {
    context: X,
    issued: Ghost<nat>,
}

impl<X> Cloning<X> {
    /// The context that is cloned.
    pub closed spec fn context(&self) -> X {
        self.context
    }

    /// Hands out clones of this context, and has handed out none.
    pub fn new(context: X) -> (contexts: Self)
        ensures
            contexts.context() == context,
            contexts.count() == 0,
    {
        Cloning { context, issued: Ghost(0) }
    }

    /// The number of clones handed out.
    pub closed spec fn count(&self) -> nat {
        self.issued@
    }
}

impl<X: Clone> ContextSource<X> for Cloning<X> {
    open spec fn origin(&self) -> X {
        self.context()
    }

    open spec fn supply(&self) -> Set<X> {
        Set::new(|cx: X| cloned(self.context(), cx))
    }

    open spec fn issued(&self) -> nat {
        self.count()
    }

    fn next(&mut self) -> (cx: X)
        ensures
            final(self).context() == old(self).context(),
            cloned(old(self).context(), cx),
    {
        let cx = self.context.clone();
        self.issued = Ghost(self.issued@ + 1);
        cx
    }
}

/// What is handed out are clones of the context, and all of them are counted.
pub proof fn law_contexts_are_clones<X: Clone>(contexts: Cloning<X>)
    ensures
        forall|cx: X| #[trigger] contexts.supply().contains(cx) ==> cloned(contexts.context(), cx),
        contexts.origin() == contexts.context(),
        contexts.issued() == contexts.count(),
{
}

/// A channel, the interface that it is called through and the contexts of these calls.
#[verifier::reject_recursive_types(S)]
pub struct Line<T: HostTransport, S> {
    transport: T,
    contexts: S,
    channel: T::Channel,
    outcomes: Ghost<Map<nat, ChannelCall<T::ReadFuture, T::WriteFuture, T::CloseFuture>>>,
}

/// An interface that channels share. Only through a [`Line`] is a channel written to or
/// closed.
pub struct Shared<T: HostTransport> {
    transport: T,
}

impl<T: HostTransport> Shared<T> {
    /// The interface.
    pub closed spec fn transport(&self) -> T {
        self.transport
    }

    /// Shares this interface.
    pub fn new(transport: T) -> (shared: Self)
        ensures
            shared.transport() == transport,
    {
        Shared { transport }
    }

    /// Asks for a channel for an invocation.
    pub fn create(&self, cx: T::Context) -> (create: T::CreateFuture)
        ensures
            call_ensures(T::create_invocation_channel, (&self.transport(), cx), create),
    {
        self.transport.create_invocation_channel(cx)
    }

    /// Waits for an incoming channel.
    pub fn accept(&self, cx: T::Context) -> (accept: T::AcceptFuture)
        ensures
            call_ensures(T::accept_channel, (&self.transport(), cx), accept),
    {
        self.transport.accept_channel(cx)
    }

    /// Puts a channel on a clone of the interface, and calls nothing.
    pub fn line<S: ContextSource<T::Context>>(&self, contexts: S, channel: T::Channel) -> (line:
        Line<T, S>)
        ensures
            cloned(self.transport(), line.transport()),
            line.contexts() == contexts,
            line.channel() == channel,
            line.calls().len() == contexts.issued(),
    {
        Line { transport: self.transport.clone(), contexts, channel, outcomes: Ghost(Map::empty()) }
    }

    /// Asks for the stream of a channel on the interface itself, with this context, and puts
    /// the channel on a clone of the interface.
    pub fn open<S: ContextSource<T::Context>>(
        &self,
        cx: T::Context,
        contexts: S,
        channel: T::Channel,
    ) -> (opened: (T::ReadFuture, Line<T, S>))
        ensures
            call_ensures(T::channel_read, (&self.transport(), cx, &channel), opened.0),
            cloned(self.transport(), opened.1.transport()),
            opened.1.contexts() == contexts,
            opened.1.channel() == channel,
            opened.1.calls().len() == contexts.issued(),
    {
        let read = self.transport.channel_read(cx, &channel);
        (read, self.line(contexts, channel))
    }
}

impl<T: HostTransport, S: ContextSource<T::Context>> Line<T, S> {
    /// The interface.
    pub closed spec fn transport(&self) -> T {
        self.transport
    }

    /// The contexts of its calls.
    pub closed spec fn contexts(&self) -> S {
        self.contexts
    }

    /// The channel itself.
    pub closed spec fn channel(&self) -> T::Channel {
        self.channel
    }

    /// The calls made, in order: one for each context taken.
    pub closed spec fn calls(&self) -> Calls<T::ReadFuture, T::WriteFuture, T::CloseFuture> {
        Seq::new(self.contexts.issued(), |i: int| self.outcomes@[i as nat])
    }

    /// Asks for the stream of the channel.
    pub fn read(&mut self) -> (read: T::ReadFuture)
        ensures
            exists|cx: T::Context|
                old(self).contexts().supply().contains(cx) && #[trigger] call_ensures(
                    T::channel_read,
                    (&old(self).transport(), cx, &old(self).channel()),
                    read,
                ),
            final(self).calls() == old(self).calls().push(ChannelCall::Read(read)),
            final(self).contexts().issued() == old(self).contexts().issued() + 1,
            final(self).contexts().supply() == old(self).contexts().supply(),
            final(self).contexts().origin() == old(self).contexts().origin(),
            final(self).transport() == old(self).transport(),
            final(self).channel() == old(self).channel(),
    {
        let ghost n = self.contexts.issued();
        let cx = self.contexts.next();
        let ghost taken = cx;
        let read = self.transport.channel_read(cx, &self.channel);
        assert(call_ensures(
            T::channel_read,
            (&old(self).transport(), taken, &old(self).channel()),
            read,
        ));
        self.outcomes = Ghost(self.outcomes@.insert(n, ChannelCall::Read(read)));
        assert(self.calls() =~= old(self).calls().push(ChannelCall::Read(read)));
        read
    }

    /// Writes to the channel.
    pub fn write(&mut self, data: Vec<u8>) -> (write: T::WriteFuture)
        ensures
            exists|cx: T::Context|
                old(self).contexts().supply().contains(cx) && #[trigger] call_ensures(
                    T::channel_write,
                    (&old(self).transport(), cx, &old(self).channel(), data),
                    write,
                ),
            final(self).calls() == old(self).calls().push(ChannelCall::Write(data@, write)),
            final(self).contexts().issued() == old(self).contexts().issued() + 1,
            final(self).contexts().supply() == old(self).contexts().supply(),
            final(self).contexts().origin() == old(self).contexts().origin(),
            final(self).transport() == old(self).transport(),
            final(self).channel() == old(self).channel(),
    {
        let ghost n = self.contexts.issued();
        let cx = self.contexts.next();
        let ghost taken = cx;
        let ghost chunk = data;
        let write = self.transport.channel_write(cx, &self.channel, data);
        assert(call_ensures(
            T::channel_write,
            (&old(self).transport(), taken, &old(self).channel(), chunk),
            write,
        ));
        self.outcomes = Ghost(self.outcomes@.insert(n, ChannelCall::Write(chunk@, write)));
        assert(self.calls() =~= old(self).calls().push(ChannelCall::Write(chunk@, write)));
        write
    }

    /// Asks the channel to close.
    pub fn close(&mut self) -> (close: T::CloseFuture)
        ensures
            exists|cx: T::Context|
                old(self).contexts().supply().contains(cx) && #[trigger] call_ensures(
                    T::channel_close,
                    (&old(self).transport(), cx, &old(self).channel()),
                    close,
                ),
            final(self).calls() == old(self).calls().push(ChannelCall::Close(close)),
            final(self).contexts().issued() == old(self).contexts().issued() + 1,
            final(self).contexts().supply() == old(self).contexts().supply(),
            final(self).contexts().origin() == old(self).contexts().origin(),
            final(self).transport() == old(self).transport(),
            final(self).channel() == old(self).channel(),
    {
        let ghost n = self.contexts.issued();
        let cx = self.contexts.next();
        let ghost taken = cx;
        let close = self.transport.channel_close(cx, &self.channel);
        assert(call_ensures(
            T::channel_close,
            (&old(self).transport(), taken, &old(self).channel()),
            close,
        ));
        self.outcomes = Ghost(self.outcomes@.insert(n, ChannelCall::Close(close)));
        assert(self.calls() =~= old(self).calls().push(ChannelCall::Close(close)));
        close
    }
}

/// A line, what it is made of and what hands out its contexts show what they hold.
proof fn law_lines_show_what_they_hold<T: HostTransport, S: ContextSource<T::Context>>(
    line: Line<T, S>,
    shared: Shared<T>,
    contexts: Cloning<T::Context>,
)
    ensures
        line.transport() == line.transport,
        line.contexts() == line.contexts,
        line.channel() == line.channel,
        shared.transport() == shared.transport,
        contexts.context() == contexts.context,
        contexts.count() == contexts.issued@,
{
}

/// As many calls were made as contexts were taken for them.
pub proof fn law_a_call_for_each_context<T: HostTransport, S: ContextSource<T::Context>>(
    line: Line<T, S>,
)
    ensures
        line.calls().len() == line.contexts().issued(),
{
}

} // verus!
