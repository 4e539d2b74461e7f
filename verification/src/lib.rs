//! wRPC transport over channels that a host provides.
//!
//! In a constrained environment, such as a browser, a program may have no transport of its
//! own, and the channels that its host can give it may carry one invocation at a time. So a
//! client asks its host for a new channel for every invocation, and a server takes
//! incoming channels off its host's queue.
//!
//! This crate decides what is done; it does not wait. An operation that waits is made of
//! steps, each of which takes what happened and says what to do next; a poll of the writing
//! end is one call that is given the means to try a lock and to poll a future.
//!
//! * [`host`]: what a host provides; [`component`]: hosts called through one interface, and
//!   [`line`]: the calls that go through it;
//! * [`client`] and [`server`]: invoking and accepting;
//! * [`ends`]: the two ends made of a channel, [`write`] and [`read`];
//! * [`queue`]: the bytes that wait for a flush, and the write under way; [`flush`]: what a
//!   flush does with them;
//! * [`queue_run`], [`queue_laws`], [`flush_laws`], [`shutdown_laws`], [`write_laws`],
//!   [`read_laws`] and [`server_laws`]: what holds of each operation, and over whole runs.

pub mod buffer;
pub mod client;
pub mod component;
pub mod ends;
pub mod flush;
pub mod flush_laws;
pub mod host;
pub mod index;
pub mod line;
pub mod outcome;
pub mod queue;
pub mod queue_laws;
pub mod queue_run;
pub mod read;
pub mod read_laws;
pub mod server;
pub mod server_laws;
pub mod shutdown_laws;
pub mod write;
pub mod write_laws;

pub use client::{Client, FrameCall, InvokeError};
pub use ends::ChannelEnds;
pub use flush::{ShutdownAction, WriteAction};
pub use host::{Channel, HostTransport};
pub use index::IndexError;
pub use outcome::{IoError, LockAttempt, Progress, Report, TaskPoll};
pub use read::{forward_step, ForwardAction, ForwardEvent, Forwarder, HostAsyncRead};
pub use server::{AcceptError, HostListener, LoopStep, Server};
pub use write::HostAsyncWrite;
