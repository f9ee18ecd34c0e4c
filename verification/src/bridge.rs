//! Duplex bridge between a synchronous caller and a native packet channel.
//!
//! The native side of an application channel is a send-sink and a receive
//! stream of packets, both asynchronous. The bridge stands in for them with
//! two plain queues: the caller enqueues outgoing payloads with
//! [`AppChannel::send`] and pulls arrived payloads in bounded batches with
//! [`AppChannel::receive`]. Two pumps run in the host for the bridge's
//! lifetime: the outbound pump takes queued payloads with
//! [`AppChannel::pop_outgoing`] and feeds the native sink; the inbound pump
//! consumes the native stream and feeds [`AppChannel::deliver_incoming`].
//! When the outbound pump terminates it calls [`AppChannel::close_send`], and
//! every later `send` is refused; the receive side keeps draining whatever
//! was already buffered.
//!
//! The native sink/stream pair exists once per connection, so at most one
//! bridge can ever be built for it: [`Platform::get_app_channel`] hands the
//! bridge out on the first call and reports it unavailable afterwards.

use vstd::prelude::*;

use crate::drain::spec_min;
use crate::drain::StreamHandle;
use crate::error::Error;

verus! {

/// Largest payload, in bytes, that one channel packet can carry.
pub const APP_CHANNEL_MTU: usize = 31;

/// Default batch limit of one receive call, matching the reference batch
/// policy of up to 100 items per read.
pub const RECEIVE_BATCH_LIMIT: usize = 100;

/// The two queues standing in for one native duplex channel.
pub struct AppChannel {
    outgoing: StreamHandle<Vec<u8>>,
    incoming: StreamHandle<Vec<u8>>,
    send_open: bool,
}

impl AppChannel {
    /// Payloads accepted for delivery and not yet taken by the outbound pump.
    pub closed spec fn outgoing_queued(self) -> Seq<Vec<u8>> {
        self.outgoing.queued()
    }

    /// Payloads the outbound pump has already taken, in order.
    pub closed spec fn outgoing_pumped(self) -> Seq<Vec<u8>> {
        self.outgoing.delivered()
    }

    /// Every payload ever accepted by [`AppChannel::send`], in order.
    pub open spec fn sent(self) -> Seq<Vec<u8>> {
        self.outgoing_pumped() + self.outgoing_queued()
    }

    /// Payloads that arrived from the device and were not yet received.
    pub closed spec fn incoming_queued(self) -> Seq<Vec<u8>> {
        self.incoming.queued()
    }

    /// Payloads already handed to the caller, in order.
    pub closed spec fn received(self) -> Seq<Vec<u8>> {
        self.incoming.delivered()
    }

    /// Whether the outbound pump is still accepting payloads.
    pub closed spec fn is_send_open(self) -> bool {
        self.send_open
    }

    /// A fresh bridge with empty queues and an open send side.
    pub fn new() -> (r: Self)
        ensures
            r.sent() == Seq::<Vec<u8>>::empty(),
            r.outgoing_queued() == Seq::<Vec<u8>>::empty(),
            r.incoming_queued() == Seq::<Vec<u8>>::empty(),
            r.received() == Seq::<Vec<u8>>::empty(),
            r.is_send_open(),
    {
        AppChannel { outgoing: StreamHandle::new(), incoming: StreamHandle::new(), send_open: true }
    }

    /// Enqueue one payload for asynchronous delivery.
    ///
    /// A payload over [`APP_CHANNEL_MTU`] bytes is refused before anything
    /// else happens: it never reaches the outbound queue, so it can never
    /// reach the pump. After the send side has closed, every payload is
    /// refused with a closed-channel error. Otherwise the payload is
    /// appended to the outbound queue; this never waits on the network.
    pub fn send(&mut self, data: Vec<u8>) -> (r: Result<(), Error>)
        ensures
            data@.len() > APP_CHANNEL_MTU ==> r == Err::<(), Error>(Error::Validation),
            data@.len() <= APP_CHANNEL_MTU && !old(self).is_send_open() ==> r == Err::<(), Error>(
                Error::ConnectionLost,
            ),
            data@.len() <= APP_CHANNEL_MTU && old(self).is_send_open() ==> r == Ok::<(), Error>(())
                && final(self).outgoing_queued() == old(self).outgoing_queued().push(data),
            r is Err ==> *final(self) == *old(self),
            final(self).outgoing_pumped() == old(self).outgoing_pumped(),
            final(self).incoming_queued() == old(self).incoming_queued(),
            final(self).received() == old(self).received(),
            final(self).is_send_open() == old(self).is_send_open(),
    {
        if data.len() > APP_CHANNEL_MTU {
            Err(Error::Validation)
        } else if !self.send_open {
            Err(Error::ConnectionLost)
        } else {
            self.outgoing.push(data);
            Ok(())
        }
    }

    /// Receive the buffered payloads: the oldest arrived payloads, at most
    /// [`RECEIVE_BATCH_LIMIT`] of them, in arrival order. Buffered payloads
    /// keep draining even after the channel has closed.
    pub fn receive(&mut self) -> (batch: Vec<Vec<u8>>)
        ensures
            batch@ == old(self).incoming_queued().take(
                spec_min(RECEIVE_BATCH_LIMIT as int, old(self).incoming_queued().len() as int),
            ),
            final(self).incoming_queued() == old(self).incoming_queued().skip(
                spec_min(RECEIVE_BATCH_LIMIT as int, old(self).incoming_queued().len() as int),
            ),
            final(self).received() == old(self).received() + batch@,
            final(self).outgoing_queued() == old(self).outgoing_queued(),
            final(self).outgoing_pumped() == old(self).outgoing_pumped(),
            final(self).is_send_open() == old(self).is_send_open(),
    {
        self.incoming.drain(RECEIVE_BATCH_LIMIT)
    }

    /// Inbound pump: one payload arrived from the native stream.
    pub fn deliver_incoming(&mut self, data: Vec<u8>)
        ensures
            final(self).incoming_queued() == old(self).incoming_queued().push(data),
            final(self).received() == old(self).received(),
            final(self).outgoing_queued() == old(self).outgoing_queued(),
            final(self).outgoing_pumped() == old(self).outgoing_pumped(),
            final(self).is_send_open() == old(self).is_send_open(),
    {
        self.incoming.push(data);
    }

    /// Outbound pump: take the oldest queued payload for delivery to the
    /// native sink, if there is one.
    pub fn pop_outgoing(&mut self) -> (r: Option<Vec<u8>>)
        ensures
            old(self).outgoing_queued().len() == 0 ==> r is None && *final(self) == *old(self),
            old(self).outgoing_queued().len() > 0 ==> {
                &&& r == Some(old(self).outgoing_queued()[0])
                &&& final(self).outgoing_queued() == old(self).outgoing_queued().skip(1)
                &&& final(self).outgoing_pumped() == old(self).outgoing_pumped().push(
                    old(self).outgoing_queued()[0],
                )
            },
            final(self).incoming_queued() == old(self).incoming_queued(),
            final(self).received() == old(self).received(),
            final(self).is_send_open() == old(self).is_send_open(),
    {
        self.outgoing.pop()
    }

    /// Outbound pump terminated: refuse every further send.
    pub fn close_send(&mut self)
        ensures
            !final(self).is_send_open(),
            final(self).outgoing_queued() == old(self).outgoing_queued(),
            final(self).outgoing_pumped() == old(self).outgoing_pumped(),
            final(self).incoming_queued() == old(self).incoming_queued(),
            final(self).received() == old(self).received(),
    {
        self.send_open = false;
    }
}

/// The connection-scoped owner of the single native sink/stream pair.
pub struct Platform {
    app_channel_taken: bool,
}

impl Platform {
    /// Whether the app channel was already handed out.
    pub closed spec fn app_channel_acquired(self) -> bool {
        self.app_channel_taken
    }

    /// A platform whose app channel was not acquired yet.
    pub fn new() -> (r: Self)
        ensures
            !r.app_channel_acquired(),
    {
        Platform { app_channel_taken: false }
    }

    /// Hand out the app channel bridge, exactly once per connection.
    ///
    /// The first call returns a fresh bridge; every later call reports the
    /// channel unavailable. This is a deliberate single-acquisition rule,
    /// not a transient failure: within one connection it never succeeds
    /// again.
    pub fn get_app_channel(&mut self) -> (r: Result<AppChannel, Error>)
        ensures
            old(self).app_channel_acquired() ==> r == Err::<AppChannel, Error>(
                Error::ResourceUnavailable,
            ) && *final(self) == *old(self),
            !old(self).app_channel_acquired() ==> {
                &&& r is Ok
                &&& r matches Ok(c) ==> c.sent() == Seq::<Vec<u8>>::empty()
                    && c.incoming_queued() == Seq::<Vec<u8>>::empty() && c.received() == Seq::<
                Vec<u8>,
                >::empty() && c.is_send_open()
            },
            final(self).app_channel_acquired(),
    {
        if self.app_channel_taken {
            Err(Error::ResourceUnavailable)
        } else {
            self.app_channel_taken = true;
            Ok(AppChannel::new())
        }
    }
}

} // verus!
