//! The decisions of the listener, which accepts clients and gives each a
//! connection of its own on one shared pool and one shared channel.

use crate::error::DanmakuError;
use vstd::prelude::*;

verus! {

/// How the wait for the next client went.
#[derive(Debug)]
pub enum Accepted {
    /// No client could be accepted; the text says why.
    AcceptFailed(String),
    /// A client was accepted, but its address could not be read; the text
    /// says why.
    AddressFailed(String),
    /// A client was accepted, but the WebSocket handshake with it failed; the
    /// text says how.
    HandshakeFailed(String),
    /// A client is ready to be served.
    Client,
}

/// What the listener does after the wait for a client.
#[derive(Debug)]
pub enum ListenerStep {
    /// Give the client a connection of its own, and wait for the next one.
    Serve,
    /// Let go of this client, and wait for the next one.
    Drop,
    /// The listener is over, with this failure.
    Stop(DanmakuError),
}

/// Decides what the listener does after the wait for a client.
///
/// A client that is ready is served. A failure that concerns one client
/// only, its address or its handshake, costs that client its connection and
/// nothing else: the listener goes on, and so does every client that is
/// being served. Only where no client can be accepted is the listener over.
pub fn on_accepted(accepted: Accepted) -> (step: ListenerStep)
    ensures
        step == match accepted {
            Accepted::AcceptFailed(text) => ListenerStep::Stop(DanmakuError::Network(text)),
            Accepted::AddressFailed(_) => ListenerStep::Drop,
            Accepted::HandshakeFailed(_) => ListenerStep::Drop,
            Accepted::Client => ListenerStep::Serve,
        },
{
    match accepted {
        Accepted::AcceptFailed(text) => ListenerStep::Stop(DanmakuError::Network(text)),
        Accepted::AddressFailed(_) => ListenerStep::Drop,
        Accepted::HandshakeFailed(_) => ListenerStep::Drop,
        Accepted::Client => ListenerStep::Serve,
    }
}

/// The number of threads that run tasks beside the calling thread, where
/// `num_threads` threads are to run them in all.
pub fn helper_threads(num_threads: usize) -> (helpers: usize)
    requires
        num_threads > 0,
    ensures
        helpers == num_threads - 1,
{
    num_threads - 1
}

} // verus!
