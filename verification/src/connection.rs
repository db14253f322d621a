//! The decisions of one client connection.
//!
//! A connection has two halves that run side by side. The inbound half waits
//! for the client's next message, stores each danmaku in the pool and has its
//! key published. The outbound half waits for the next published key, looks
//! it up in the pool and has the danmaku written to the client. Whatever
//! waits is done by the caller; what to do with the outcome is decided here.
//! The connection is over as soon as either half ends, and nothing that
//! arrives afterwards has any effect.

use crate::danmaku::{Danmaku, DanmakuView};
use crate::error::DanmakuError;
use crate::model::{PoolModel, PoolOp};
use crate::pool::{DanmakuPool, PoolKey};
use crate::slots::{KEY_LIMIT, SLOT_LIMIT};
use vstd::prelude::*;

verus! {

/// How many published keys the fan-out channel buffers.
pub const FANOUT_DEPTH: usize = 20;

/// A connection: running, or over with the result of the half that ended
/// first.
#[derive(Debug)]
pub enum Connection {
    Running,
    Terminated(Result<(), DanmakuError>),
}

/// What the inbound half got when it waited for the client's next message.
#[derive(Debug)]
pub enum Inbound {
    /// The client's stream ended.
    Ended,
    /// The transport failed; the text says how.
    TransportFailed(String),
    /// A message that is not text.
    NonText,
    /// Text that is not the JSON of a danmaku.
    InvalidJson,
    /// A danmaku.
    Event(Danmaku),
}

/// What the inbound half does next.
#[derive(Debug)]
pub enum InboundStep {
    /// The message is dropped with a warning; wait for the next one.
    Discard,
    /// The danmaku is stored under this key: publish the key, then wait for
    /// the next message.
    Publish(PoolKey),
    /// The connection is over.
    Stop,
}

/// What the outbound half got when it waited for the next published key.
#[derive(Debug)]
pub enum Outbound {
    /// The subscription ended.
    Ended,
    /// A key was published.
    Key(PoolKey),
}

/// What the outbound half does next.
#[derive(Debug)]
pub enum OutboundStep<'a> {
    /// The pool no longer stores the danmaku: skip it with a warning and wait
    /// for the next key.
    Skip,
    /// Write this danmaku to the client.
    Send(&'a Danmaku),
    /// The connection is over.
    Stop,
}

/// How the delivery of one danmaku to the client went.
#[derive(Debug)]
pub enum Delivery {
    /// The danmaku was written.
    Sent,
    /// The danmaku could not be turned into JSON; the text says why.
    EncodeFailed(String),
    /// The write failed; the text says how.
    WriteFailed(String),
}

impl Connection {
    /// A connection that has just been accepted.
    pub fn new() -> (connection: Connection)
        ensures
            connection == Connection::Running,
    {
        Connection::Running
    }

    /// Whether the connection is still running.
    pub fn is_running(&self) -> (running: bool)
        ensures
            running == (*self == Connection::Running),
    {
        match self {
            Connection::Running => true,
            Connection::Terminated(_) => false,
        }
    }

    /// The result of the connection, once it is over.
    pub fn outcome(self) -> (result: Option<Result<(), DanmakuError>>)
        ensures
            result == match self {
                Connection::Running => None::<Result<(), DanmakuError>>,
                Connection::Terminated(reason) => Some(reason),
            },
    {
        match self {
            Connection::Running => None,
            Connection::Terminated(reason) => Some(reason),
        }
    }

    /// Whether the inbound half stores what it got: a running connection
    /// stores every danmaku.
    pub open spec fn stores(self, inbound: Inbound) -> bool {
        self == Connection::Running && inbound is Event
    }

    /// Whether the inbound half drops what it got and goes on: a running
    /// connection drops every message that is no danmaku.
    pub open spec fn discards(self, inbound: Inbound) -> bool {
        self == Connection::Running && (inbound is NonText || inbound is InvalidJson)
    }

    /// The connection after the inbound half got `inbound`.
    pub open spec fn after_inbound(self, inbound: Inbound) -> Connection {
        match (self, inbound) {
            (Connection::Running, Inbound::Ended) => Connection::Terminated(Ok(())),
            (Connection::Running, Inbound::TransportFailed(text)) => Connection::Terminated(
                Err(DanmakuError::WebSocket(text)),
            ),
            _ => self,
        }
    }

    /// The connection after the outbound half got `outbound`.
    pub open spec fn after_outbound(self, outbound: Outbound) -> Connection {
        match (self, outbound) {
            (Connection::Running, Outbound::Ended) => Connection::Terminated(Ok(())),
            _ => self,
        }
    }

    /// The connection after a delivery that went as `delivery` says.
    pub open spec fn after_delivery(self, delivery: Delivery) -> Connection {
        match (self, delivery) {
            (Connection::Running, Delivery::EncodeFailed(text)) => Connection::Terminated(
                Err(DanmakuError::Json(text)),
            ),
            (Connection::Running, Delivery::WriteFailed(text)) => Connection::Terminated(
                Err(DanmakuError::WebSocket(text)),
            ),
            _ => self,
        }
    }

    /// Decides what the inbound half does with what it got.
    ///
    /// A danmaku is stored in the pool and its key is handed back for
    /// publishing. A message that is no danmaku is dropped and the connection
    /// goes on. The end of the stream ends the connection cleanly, a failure
    /// of the transport ends it with that failure. Only a danmaku changes the
    /// pool, and a connection that is over changes nothing.
    ///
    /// The pool's storage cannot take more than `SLOT_LIMIT` danmaku, so a
    /// danmaku is handed in only while there is room.
    pub fn on_inbound<const N: usize>(
        &mut self,
        pool: &mut DanmakuPool<N>,
        inbound: Inbound,
    ) -> (step: InboundStep)
        requires
            old(self).stores(inbound) ==> old(pool)@.stored.len() < SLOT_LIMIT,
        ensures
            final(pool)@.wf(),
            *final(self) == old(self).after_inbound(inbound),
            old(self).stores(inbound) ==> {
                &&& step matches InboundStep::Publish(key)
                &&& inbound matches Inbound::Event(danmaku)
                &&& !old(pool)@.stored.dom().contains(key@)
                &&& old(pool)@.issued.len() < KEY_LIMIT ==> old(pool)@.admits(
                    (PoolOp::Insert { key: key@, event: danmaku@ }),
                )
                &&& final(pool)@ == old(pool)@.inserted(key@, danmaku@)
            },
            !old(self).stores(inbound) ==> final(pool)@ == old(pool)@,
            old(self).discards(inbound) ==> step == InboundStep::Discard,
            !old(self).stores(inbound) && !old(self).discards(inbound) ==> step
                == InboundStep::Stop,
    {
        proof {
            use_type_invariant(&*pool);
            pool.lemma_wf();
        }
        if !self.is_running() {
            return InboundStep::Stop;
        }
        match inbound {
            Inbound::Ended => {
                *self = Connection::Terminated(Ok(()));
                InboundStep::Stop
            },
            Inbound::TransportFailed(text) => {
                *self = Connection::Terminated(Err(DanmakuError::WebSocket(text)));
                InboundStep::Stop
            },
            Inbound::NonText => InboundStep::Discard,
            Inbound::InvalidJson => InboundStep::Discard,
            Inbound::Event(danmaku) => {
                let key = pool.insert(danmaku);
                InboundStep::Publish(key)
            },
        }
    }

    /// Takes note of how the publishing of a key went. A key that the channel
    /// did not take is reported for a warning, and the connection goes on
    /// either way.
    pub fn on_published(&self, failure: Option<String>) -> (warn: bool)
        ensures
            warn == failure.is_some(),
    {
        failure.is_some()
    }

    /// Decides what the outbound half does with what it got.
    ///
    /// A published key is looked up in the pool: the danmaku under it is
    /// handed back for writing, and a key under which the pool stores nothing
    /// is skipped. The end of the subscription ends the connection cleanly.
    pub fn on_outbound<'a, const N: usize>(
        &mut self,
        pool: &'a DanmakuPool<N>,
        outbound: Outbound,
    ) -> (step: OutboundStep<'a>)
        ensures
            *final(self) == old(self).after_outbound(outbound),
            match (*old(self), outbound) {
                (Connection::Running, Outbound::Key(key)) => match pool@.resolve(key@) {
                    Some(event) => step matches OutboundStep::Send(danmaku) && danmaku@ == event,
                    None => step == OutboundStep::Skip,
                },
                _ => step == OutboundStep::Stop,
            },
    {
        if !self.is_running() {
            return OutboundStep::Stop;
        }
        match outbound {
            Outbound::Ended => {
                *self = Connection::Terminated(Ok(()));
                OutboundStep::Stop
            },
            Outbound::Key(key) => {
                match pool.get(key) {
                    Some(danmaku) => OutboundStep::Send(danmaku),
                    None => OutboundStep::Skip,
                }
            },
        }
    }

    /// Takes note of how a delivery went, and says whether the connection
    /// goes on. A danmaku that could not be encoded or written ends the
    /// connection with that failure.
    pub fn on_delivery(&mut self, delivery: Delivery) -> (running: bool)
        ensures
            *final(self) == old(self).after_delivery(delivery),
            running == (*final(self) == Connection::Running),
    {
        if !self.is_running() {
            return false;
        }
        match delivery {
            Delivery::Sent => true,
            Delivery::EncodeFailed(text) => {
                *self = Connection::Terminated(Err(DanmakuError::Json(text)));
                false
            },
            Delivery::WriteFailed(text) => {
                *self = Connection::Terminated(Err(DanmakuError::WebSocket(text)));
                false
            },
        }
    }
}

/// Decode resilience: a message that is no danmaku does not end a running
/// connection, and the danmaku that comes after it is stored and published
/// like any other.
pub proof fn lemma_decode_resilience(undecodable: Inbound, next: Danmaku)
    requires
        undecodable is NonText || undecodable is InvalidJson,
    ensures
        Connection::Running.discards(undecodable),
        Connection::Running.after_inbound(undecodable) == Connection::Running,
        Connection::Running.after_inbound(undecodable).stores(Inbound::Event(next)),
{
}

/// Soft misses: neither a key that the pool no longer stores nor a danmaku
/// that was written ends a running connection.
pub proof fn lemma_soft_misses_go_on(key: PoolKey)
    ensures
        Connection::Running.after_outbound(Outbound::Key(key)) == Connection::Running,
        Connection::Running.after_delivery(Delivery::Sent) == Connection::Running,
{
}

/// Isolation: a connection whose transport fails is over with that failure,
/// and the failure stores nothing, so that the pool and with it every other
/// connection go on as if it had not happened.
pub proof fn lemma_failure_is_contained(text: String)
    ensures
        !Connection::Running.stores(Inbound::TransportFailed(text)),
        Connection::Running.after_inbound(Inbound::TransportFailed(text))
            == Connection::Terminated(Err(DanmakuError::WebSocket(text))),
{
}

/// A connection that is over stays over with the same result: whatever
/// either half still gets, nothing is stored and nothing changes.
pub proof fn lemma_terminated_is_final(
    reason: Result<(), DanmakuError>,
    inbound: Inbound,
    outbound: Outbound,
    delivery: Delivery,
)
    ensures
        !Connection::Terminated(reason).stores(inbound),
        !Connection::Terminated(reason).discards(inbound),
        Connection::Terminated(reason).after_inbound(inbound) == Connection::Terminated(reason),
        Connection::Terminated(reason).after_outbound(outbound) == Connection::Terminated(reason),
        Connection::Terminated(reason).after_delivery(delivery) == Connection::Terminated(reason),
{
}

/// Round trip: the danmaku that one connection stored is the danmaku that
/// the pool resolves its key to, for every connection that looks it up before
/// anything else happens to the pool.
pub proof fn lemma_round_trip(pool: PoolModel, key: u64, event: DanmakuView)
    ensures
        pool.inserted(key, event).resolve(key) == Some(event),
{
}

} // verus!
