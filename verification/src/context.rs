//! Shutdown signaling.
//!
//! A [`Context`] bundles two independent one-shot signals — graceful and
//! emergency — and is handed to every node in every lifecycle phase. Two
//! separate signals, rather than one signal with a reason code, let the
//! orchestrator race both against phase completion with different outcomes,
//! and let node logic choose graceful or abrupt termination explicitly.
//!
//! Each signal is a one-slot channel that delivers at most one notification
//! at a time: a request made while a notification is already pending is not
//! delivered, and consuming the notification clears the slot.

use vstd::prelude::*;

use crate::transport::ShutdownManager;
use crate::transport::signal_pending;

verus! {

/// One step of the one-shot signal when a notification is requested:
/// the request is delivered exactly when no notification was pending, and a
/// notification is pending afterwards either way.
pub open spec fn request_step(pending: bool) -> (bool, bool) {
    (!pending, true)
}

/// One step of the one-shot signal when a waiter consumes it: the waiter is
/// notified exactly when a notification was pending, and none is pending
/// afterwards.
pub open spec fn take_step(pending: bool) -> (bool, bool) {
    (pending, false)
}

/// One-shot signal law: however the slot starts, one request followed by one
/// wait resolves that wait exactly once, and a second wait with no new
/// request in between does not resolve.
pub proof fn lemma_signal_one_shot(p0: bool)
    ensures
        ({
            let (_, p1) = request_step(p0);
            let (got1, p2) = take_step(p1);
            let (got2, _) = take_step(p2);
            got1 && !got2
        }),
{
}

/// The shared handle for requesting and observing termination: a graceful
/// one-shot signal and an emergency one-shot signal.
pub struct Context {
    graceful: ShutdownManager,
    emergency: ShutdownManager,
}

impl Context {
    /// Whether a graceful-shutdown notification is pending.
    pub closed spec fn graceful_pending(self) -> bool {
        signal_pending(self.graceful)
    }

    /// Whether an emergency-shutdown notification is pending.
    pub closed spec fn emergency_pending(self) -> bool {
        signal_pending(self.emergency)
    }

    /// Construct a context with both signals clear.
    pub fn new() -> (c: Context)
        ensures
            !c.graceful_pending(),
            !c.emergency_pending(),
    {
        Context { graceful: ShutdownManager::new(), emergency: ShutdownManager::new() }
    }

    /// Publish the one graceful-shutdown notification. Returns whether this
    /// call delivered it; a call made while one is already pending reports
    /// `false` and delivers nothing further.
    pub fn request_shutdown(&mut self) -> (delivered: bool)
        ensures
            (delivered, final(self).graceful_pending()) == request_step(
                old(self).graceful_pending(),
            ),
            final(self).emergency_pending() == old(self).emergency_pending(),
    {
        self.graceful.shutdown()
    }

    /// Publish the one emergency-shutdown notification, on the signal
    /// separate from the graceful one.
    pub fn request_emergency_shutdown(&mut self) -> (delivered: bool)
        ensures
            (delivered, final(self).emergency_pending()) == request_step(
                old(self).emergency_pending(),
            ),
            final(self).graceful_pending() == old(self).graceful_pending(),
    {
        self.emergency.shutdown()
    }

    /// Consume the graceful-shutdown notification if one is pending,
    /// clearing the slot: no later waiter sees it unless it is re-sent.
    /// Returns whether the notification was there to consume — the point at
    /// which a blocking waiter would otherwise suspend.
    pub fn await_shutdown(&mut self) -> (notified: bool)
        ensures
            (notified, final(self).graceful_pending()) == take_step(old(self).graceful_pending()),
            final(self).emergency_pending() == old(self).emergency_pending(),
    {
        self.graceful.await_shutdown()
    }

    /// Consume the emergency-shutdown notification if one is pending,
    /// clearing the slot.
    pub fn await_emergency_shutdown(&mut self) -> (notified: bool)
        ensures
            (notified, final(self).emergency_pending()) == take_step(
                old(self).emergency_pending(),
            ),
            final(self).graceful_pending() == old(self).graceful_pending(),
    {
        self.emergency.await_shutdown()
    }
}

} // verus!
