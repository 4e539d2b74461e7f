//! The server side: channels from the host's queue, one after the other.

use vstd::prelude::*;
use wrpc_transport::frame::Server as TransportServer;

use crate::ends::{fresh_ends, ChannelEnds};
use crate::host::{accepted_by, HostTransport};
use crate::outcome::IoError;

verus! {

/// `wrpc_transport::frame::Server`, which reads what an accepted connection invokes and
/// hands the connection to whoever serves that.
#[verifier::external_type_specification]
#[verifier::external_body]
#[verifier::reject_recursive_types(C)]
#[verifier::reject_recursive_types(I)]
#[verifier::reject_recursive_types(O)]
#[verifier::reject_recursive_types(H)]
pub struct ExTransportServer<C, I, O, H>(TransportServer<C, I, O, H>);

/// `wrpc_transport::frame::Server::new` makes a server that serves nothing yet; what it
/// serves is known to it alone, so nothing is said of it here.
pub assume_specification<C, I, O, H>[ TransportServer::<C, I, O, H>::new ]() -> (routes:
    TransportServer<C, I, O, H>)
;

/// Accepts channels from the host. `I` reads a channel, and `O` writes to it.
#[verifier::reject_recursive_types(I)]
#[verifier::reject_recursive_types(O)]
pub struct Server<T: HostTransport, I, O> {
    transport: T,
    transport_server: TransportServer<(), I, O>,
}

/// Gets channels from the host for a [`Server`].
pub struct HostListener<'a, T: HostTransport> {
    transport: &'a T,
}

/// Why a connection was not accepted.
#[derive(Debug, PartialEq, Eq)]
pub struct AcceptError {
    /// The error in words.
    pub message: String,
}

/// How a loop that accepts connections goes on.
#[derive(Debug, PartialEq, Eq)]
pub enum LoopStep<E> {
    /// Accept the next connection.
    AcceptNext,
    /// End with this error.
    Stop(E),
}

impl<T: HostTransport, I, O> Server<T, I, O> {
    /// The host's transport.
    pub closed spec fn transport(&self) -> T {
        self.transport
    }

    /// What routes accepted connections.
    pub closed spec fn routes(&self) -> TransportServer<(), I, O> {
        self.transport_server
    }

    /// A server on this transport.
    pub fn new(transport: T) -> (server: Self)
        ensures
            server.transport() == transport,
    {
        Server { transport, transport_server: TransportServer::new() }
    }

    /// What routes accepted connections.
    pub fn transport_server(&self) -> (server: &TransportServer<(), I, O>)
        ensures
            *server == self.routes(),
    {
        &self.transport_server
    }

    /// Begins to accept a connection: the listener that is to provide it.
    pub fn accept(&self) -> (listener: HostListener<'_, T>)
        ensures
            *listener.transport() == self.transport(),
    {
        HostListener { transport: &self.transport }
    }

    /// Ends accepting a connection; an error is given in words.
    pub fn accepted(outcome: Result<(), String>) -> (result: Result<(), AcceptError>)
        ensures
            match outcome {
                Ok(()) => result is Ok,
                Err(error) => result matches Err(failure) && failure.message@
                    == "failed to accept connection: "@ + error@,
            },
    {
        match outcome {
            Ok(()) => Ok(()),
            Err(error) => Err(
                AcceptError {
                    message: "failed to accept connection: ".to_owned().concat(error.as_str()),
                },
            ),
        }
    }

    /// Goes on after a connection was accepted, or ends where it was not.
    pub fn accept_loop<E>(accepted: Result<(), E>) -> (step: LoopStep<E>)
        ensures
            step == loop_step(accepted),
            match accepted {
                Ok(_) => step is AcceptNext,
                Err(error) => step == LoopStep::<E>::Stop(error),
            },
    {
        match accepted {
            Ok(()) => LoopStep::AcceptNext,
            Err(error) => LoopStep::Stop(error),
        }
    }
}

impl<'a, T: HostTransport> HostListener<'a, T> {
    /// The host's transport.
    pub closed spec fn transport(&self) -> &'a T {
        self.transport
    }

    /// The host's transport.
    pub fn host(&self) -> (host: &'a T)
        ensures
            host == self.transport(),
    {
        self.transport
    }

    /// Begins to accept a channel: waits for the host to have one.
    pub fn accept(&self) -> (accept: T::AcceptFuture)
        ensures
            accepted_by(*self.transport(), accept),
            call_ensures(T::accept_channel, (self.transport(),), accept),
    {
        self.transport.accept_channel()
    }

    /// Ends accepting a channel: its two ends, or the host's error.
    pub fn channel_accepted(accepted: Result<T::Channel, T::Error>) -> (ends: Result<
        ChannelEnds<T>,
        IoError<T::Error>,
    >)
        ensures
            match accepted {
                Ok(channel) => ends matches Ok(both) && fresh_ends(channel, both),
                Err(error) => ends == Err::<ChannelEnds<T>, IoError<T::Error>>(
                    IoError::Other(error),
                ),
            },
    {
        match accepted {
            Ok(channel) => Ok(ChannelEnds::open(channel)),
            Err(error) => Err(IoError::Other(error)),
        }
    }
}

/// How the loop goes on after accepting a connection.
pub open spec fn loop_step<E>(accepted: Result<(), E>) -> LoopStep<E> {
    match accepted {
        Ok(_) => LoopStep::AcceptNext,
        Err(error) => LoopStep::Stop(error),
    }
}

} // verus!
