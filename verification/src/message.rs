use vstd::prelude::*;

verus! {

/// The marker trait for values that may travel through a [`crate::mailbox::Mailbox`].
/// It is implemented for every type that is safe to hand across tasks.
pub trait Message: Send + Sync {

}

impl<T: Send + Sync> Message for T {

}

/// A type-erased message in transit: a runtime type tag together with an
/// opaque payload. Recovery of the original value is a checked operation
/// that compares the tag; it is never an unchecked cast.
#[derive(Debug, PartialEq, Eq)]
pub struct Envelope {
    /// The runtime identity of the payload's type. Two values of the same
    /// type carry the same tag; distinct types are expected to pick
    /// distinct tags.
    pub tag: u64,
    /// The payload, opaque to everything but the sender and the receiver
    /// that asked for this tag.
    pub payload: Vec<u8>,
}

impl Envelope {
    /// Bundle a payload under a type tag.
    pub fn new(tag: u64, payload: Vec<u8>) -> (e: Envelope)
        ensures
            e.tag == tag,
            e.payload == payload,
    {
        Envelope { tag, payload }
    }
}

} // verus!
