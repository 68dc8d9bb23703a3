//! The trusted transport primitives.
//!
//! Everything in this module is a thin wrapper around a `flume` channel whose
//! two ends are owned together, so that the pair behaves as one queue under
//! exclusive access. The contracts here are believed, not proved: each one
//! states only what the channel's own source shows.

use vstd::prelude::*;

use crate::message::Envelope;

verus! {

/// What a [`MessageQueue`] holds, front first: the tag and the payload of
/// each message still in transit.
pub uninterp spec fn queue_entries(q: MessageQueue) -> Seq<(u64, Seq<u8>)>;

/// An unbounded first-in/first-out queue of [`Envelope`] values, backed by a
/// `flume` unbounded channel. The send end and the receive end are owned by
/// the same value, so the channel can never be observed disconnected from
/// either side.
#[verifier::external_body]
pub struct MessageQueue {
    sender: flume::Sender<Envelope>,
    receiver: flume::Receiver<Envelope>,
}

impl MessageQueue {
    /// Relies on `flume::unbounded`: a fresh channel holds no messages.
    #[verifier::external_body]
    pub(crate) fn new() -> (q: MessageQueue)
        ensures
            queue_entries(q) == Seq::<(u64, Seq<u8>)>::empty(),
    {
        let (sender, receiver) = flume::unbounded();
        MessageQueue { sender, receiver }
    }

    /// Relies on `flume::Sender::send`: on an unbounded channel it never
    /// blocks, enqueues at the back, and fails only when every receiver has
    /// been dropped — and this queue owns its receiver.
    #[verifier::external_body]
    pub(crate) fn push(&mut self, e: Envelope)
        ensures
            queue_entries(*final(self)) == queue_entries(*old(self)).push((e.tag, e.payload@)),
    {
        let _ = self.sender.send(e);
    }

    /// Relies on `flume::Receiver::try_recv`: it takes the message at the
    /// front of the queue, or reports the queue empty; the disconnected case
    /// cannot arise because this queue owns its sender.
    #[verifier::external_body]
    pub(crate) fn pop(&mut self) -> (r: Option<Envelope>)
        ensures
            match r {
                Some(e) => {
                    &&& queue_entries(*old(self)).len() > 0
                    &&& (e.tag, e.payload@) == queue_entries(*old(self))[0]
                    &&& queue_entries(*final(self)) == queue_entries(*old(self)).drop_first()
                },
                None => {
                    &&& queue_entries(*old(self)).len() == 0
                    &&& queue_entries(*final(self)) == queue_entries(*old(self))
                },
            },
    {
        self.receiver.try_recv().ok()
    }
}

/// Whether a [`ShutdownManager`] holds a delivered, not yet consumed
/// notification.
pub uninterp spec fn signal_pending(s: ShutdownManager) -> bool;

/// A one-shot notification slot, backed by a `flume` channel of capacity
/// one. Both ends are owned by the same value, so the slot can never be
/// observed disconnected. At any time it holds at most one notification.
#[verifier::external_body]
pub struct ShutdownManager {
    sender: flume::Sender<()>,
    receiver: flume::Receiver<()>,
}

impl ShutdownManager {
    /// Relies on `flume::bounded`: a fresh channel holds no messages.
    #[verifier::external_body]
    pub fn new() -> (s: ShutdownManager)
        ensures
            !signal_pending(s),
    {
        let (sender, receiver) = flume::bounded(1);
        ShutdownManager { sender, receiver }
    }

    /// Deliver the notification. Relies on `flume::Sender::try_send` on a
    /// channel of capacity one: it succeeds exactly when the slot is free,
    /// and reports the channel full otherwise; the disconnected case cannot
    /// arise because this signal owns its receiver. Returns whether this
    /// call was the one that filled the slot.
    #[verifier::external_body]
    pub fn shutdown(&mut self) -> (delivered: bool)
        ensures
            signal_pending(*final(self)),
            delivered == !signal_pending(*old(self)),
    {
        self.sender.try_send(()).is_ok()
    }

    /// Consume the notification if one is pending, clearing the slot.
    /// Relies on `flume::Receiver::try_recv`: it takes the queued message
    /// exactly when there is one; the disconnected case cannot arise because
    /// this signal owns its sender.
    #[verifier::external_body]
    pub fn await_shutdown(&mut self) -> (notified: bool)
        ensures
            notified == signal_pending(*old(self)),
            !signal_pending(*final(self)),
    {
        self.receiver.try_recv().is_ok()
    }
}

} // verus!
