//! A node is an element of a system: a unit of behavior driven through the
//! shared lifecycle. It can send and receive messages, and it can request
//! that the whole system shut down.

use vstd::prelude::*;

use crate::context::Context;
use crate::mailbox::Mailbox;

verus! {

/// The lifecycle hooks of a registered node. Every hook has an empty default
/// body: a node implementing none of them is legal and simply does nothing
/// during that phase. Each hook receives the shared [`Context`] and
/// [`Mailbox`] and exclusive access to the node's own state; what a hook
/// does with them is entirely its own business, so the hooks carry no
/// contract.
pub trait Node: Sized {
    /// Run once per node while the system is in the Starting phase.
    fn starting(&mut self, ctx: &mut Context, mailbox: &mut Mailbox) {
    }

    /// Run once per node while the system is in the Running phase.
    fn running(&mut self, ctx: &mut Context, mailbox: &mut Mailbox) {
    }

    /// Run once per node while the system is in the Stopping phase.
    fn stopping(&mut self, ctx: &mut Context, mailbox: &mut Mailbox) {
    }
}

} // verus!
