//! The client side: one channel of its own for each invocation.

use vstd::prelude::*;

use crate::ends::{fresh_ends, ChannelEnds};
use crate::host::{created_by, HostTransport};

verus! {

/// Invokes functions of a server through channels that the host creates.
#[derive(Debug)]
pub struct Client<T: HostTransport> {
    pub(crate) transport: T,
}

/// A client's transport is the one that it calls.
pub(crate) proof fn law_client_shows_its_transport<T: HostTransport>(client: Client<T>)
    ensures
        client.transport() == client.transport,
{
}

/// Why an invocation could not be made.
#[derive(Debug, PartialEq, Eq)]
pub enum InvokeError<E> {
    /// The host created no channel.
    CreateChannel(E),
    /// The invocation could not be sent through the channel.
    SetUp(E),
}

/// The invocation to be sent: what was asked for, and the ends of the channel made for it.
pub struct FrameCall<T: HostTransport, R> {
    /// The ends of the channel.
    pub ends: ChannelEnds<T>,
    /// The function to invoke, its parameters and paths.
    pub request: R,
}

impl<T: HostTransport> Client<T> {
    /// The host's transport.
    pub closed spec fn transport(&self) -> T {
        self.transport
    }

    /// A client on this transport.
    pub fn new(transport: T) -> (client: Self)
        ensures
            client.transport() == transport,
    {
        Client { transport }
    }

    /// The host's transport.
    pub fn host(&self) -> (host: &T)
        ensures
            *host == self.transport(),
    {
        &self.transport
    }

    /// Begins an invocation: asks the host for a channel.
    pub fn invoke(&self) -> (create: T::CreateFuture)
        ensures
            created_by(self.transport(), create),
            call_ensures(T::create_invocation_channel, (&self.transport(),), create),
    {
        self.transport.create_invocation_channel()
    }

    /// Goes on with an invocation once the host has answered: with a channel, the request
    /// is to be sent through its two ends.
    pub fn channel_created<R>(created: Result<T::Channel, T::Error>, request: R) -> (call: Result<
        FrameCall<T, R>,
        InvokeError<T::Error>,
    >)
        ensures
            match created {
                Ok(channel) => call matches Ok(frame) && fresh_ends(channel, frame.ends)
                    && frame.request == request,
                Err(error) => call == Err::<FrameCall<T, R>, InvokeError<T::Error>>(
                    InvokeError::CreateChannel(error),
                ),
            },
    {
        match created {
            Ok(channel) => Ok(FrameCall { ends: ChannelEnds::open(channel), request }),
            Err(error) => Err(InvokeError::CreateChannel(error)),
        }
    }

    /// Ends an invocation once the request has been sent, or has not.
    pub fn request_sent<S>(sent: Result<S, T::Error>) -> (streams: Result<
        S,
        InvokeError<T::Error>,
    >)
        ensures
            streams == (match sent {
                Ok(streams) => Ok::<S, InvokeError<T::Error>>(streams),
                Err(error) => Err(InvokeError::SetUp(error)),
            }),
    {
        match sent {
            Ok(streams) => Ok(streams),
            Err(error) => Err(InvokeError::SetUp(error)),
        }
    }
}

impl<T: HostTransport + Clone> Clone for Client<T> {
    /// A client on a clone of the transport.
    fn clone(&self) -> (client: Self)
        ensures
            cloned(self.transport(), client.transport()),
    {
        Client { transport: self.transport.clone() }
    }
}

/// What was being done when an invocation failed.
pub open spec fn failed_step<E>(error: InvokeError<E>) -> Seq<char> {
    match error {
        InvokeError::CreateChannel(_) => "failed to create invocation channel"@,
        InvokeError::SetUp(_) => "failed to set up client invocation"@,
    }
}

/// The error of the host or of the framing behind this one.
pub open spec fn cause<E>(error: InvokeError<E>) -> E {
    match error {
        InvokeError::CreateChannel(error) => error,
        InvokeError::SetUp(error) => error,
    }
}

impl<E> InvokeError<E> {
    /// The error in words, and the one behind it.
    pub fn into_parts(self) -> (parts: (String, E))
        ensures
            parts.0@ == failed_step(self),
            parts.1 == cause(self),
            match self {
                InvokeError::CreateChannel(error) => parts.0@
                    == "failed to create invocation channel"@ && parts.1 == error,
                InvokeError::SetUp(error) => parts.0@ == "failed to set up client invocation"@
                    && parts.1 == error,
            },
    {
        match self {
            InvokeError::CreateChannel(error) => (
                "failed to create invocation channel".to_owned(),
                error,
            ),
            InvokeError::SetUp(error) => ("failed to set up client invocation".to_owned(), error),
        }
    }
}

} // verus!
