//! The shared message channel.
//!
//! A [`Mailbox`] is one unbounded queue of type-erased messages. Sending
//! enqueues at the back. Receiving asks for a type tag and walks the queue
//! from the front: the first message whose tag matches is returned, and
//! every message passed over on the way is dropped for good. This
//! drop-on-mismatch policy is a deliberate invariant of the design, not an
//! accident: a message of another type encountered while scanning is never
//! delivered to anyone later.

use vstd::prelude::*;

use crate::message::Envelope;
use crate::transport::MessageQueue;
use crate::transport::queue_entries;

verus! {

/// Errors of the mailbox transport. With both channel ends owned by the
/// mailbox itself neither can arise here; they are the failure surface of
/// the transport for drivers that split the two ends across tasks.
#[derive(Clone, Copy, Debug, PartialEq, Eq, Structural)]
pub enum MailboxError {
    /// No receiver can ever observe the message again.
    SendFailed,
    /// The channel is closed and holds no pending message.
    ReceiveFailed,
}

/// The result of scanning a queue, front first, for the first entry whose
/// tag matches: the entry found, if any, and what the scan leaves of the
/// queue. Every entry in front of the match is consumed and dropped; a scan
/// that finds nothing consumes the whole queue.
pub open spec fn scan_for(q: Seq<(u64, Seq<u8>)>, tag: u64) -> (Option<(u64, Seq<u8>)>, Seq<
    (u64, Seq<u8>),
>)
    decreases q.len(),
{
    if q.len() == 0 {
        (None, q)
    } else if q[0].0 == tag {
        (Some(q[0]), q.drop_first())
    } else {
        scan_for(q.drop_first(), tag)
    }
}

/// Delivery law, first half: when the queue holds a message of the wanted
/// tag, the scan returns the earliest not-yet-consumed one and leaves
/// exactly the messages behind it — everything in front of the match, of
/// whatever tag, is consumed.
pub proof fn lemma_scan_finds_earliest(q: Seq<(u64, Seq<u8>)>, tag: u64, i: int)
    requires
        0 <= i < q.len(),
        q[i].0 == tag,
        forall|j: int| 0 <= j < i ==> (#[trigger] q[j]).0 != tag,
    ensures
        scan_for(q, tag).0 == Some(q[i]),
        scan_for(q, tag).1 == q.subrange(i + 1, q.len() as int),
    decreases i,
{
    if i == 0 {
        assert(scan_for(q, tag).1 =~= q.subrange(1, q.len() as int));
    } else {
        assert(q[0].0 != tag);
        lemma_scan_finds_earliest(q.drop_first(), tag, i - 1);
        assert(q.drop_first().subrange(i, q.drop_first().len() as int) =~= q.subrange(
            i + 1,
            q.len() as int,
        ));
    }
}

/// Delivery law, second half: when the queue holds no message of the wanted
/// tag, the scan finds nothing and consumes the whole queue; a message
/// passed over while scanning is never delivered to any later receiver.
pub proof fn lemma_scan_no_match(q: Seq<(u64, Seq<u8>)>, tag: u64)
    requires
        forall|j: int| 0 <= j < q.len() ==> (#[trigger] q[j]).0 != tag,
    ensures
        scan_for(q, tag).0 is None,
        scan_for(q, tag).1 == Seq::<(u64, Seq<u8>)>::empty(),
    decreases q.len(),
{
    if q.len() == 0 {
        assert(q =~= Seq::<(u64, Seq<u8>)>::empty());
    } else {
        lemma_scan_no_match(q.drop_first(), tag);
    }
}

/// The shared, multi-producer/multi-consumer channel of type-erased
/// messages. Exactly one send end and one receive end exist, owned here,
/// so the queue is never closed while the mailbox lives.
pub struct Mailbox {
    queue: MessageQueue,
}

impl Mailbox {
    /// The messages still in transit, front first, each as its tag and its
    /// payload.
    pub closed spec fn contents(self) -> Seq<(u64, Seq<u8>)> {
        queue_entries(self.queue)
    }

    /// Construct a new, empty [`Mailbox`].
    pub fn new() -> (m: Mailbox)
        ensures
            m.contents() == Seq::<(u64, Seq<u8>)>::empty(),
    {
        Mailbox { queue: MessageQueue::new() }
    }

    /// Send a message to the mailbox: enqueue it at the back. The mailbox
    /// owns its receive end, so the send cannot fail.
    pub fn send(&mut self, message: Envelope) -> (r: Result<(), MailboxError>)
        ensures
            r is Ok,
            final(self).contents() == old(self).contents().push((message.tag, message.payload@)),
    {
        self.queue.push(message);
        Ok(())
    }

    /// Take the earliest message whose tag is `tag`, dropping every earlier
    /// message of any other tag. Returns `Ok(None)` when no matching message
    /// is in transit — the point at which a blocking receiver would suspend —
    /// and by then the whole queue has been consumed.
    pub fn recv(&mut self, tag: u64) -> (r: Result<Option<Envelope>, MailboxError>)
        ensures
            ({
                let (found, rest) = scan_for(old(self).contents(), tag);
                &&& final(self).contents() == rest
                &&& match r {
                    Ok(Some(e)) => found == Some((e.tag, e.payload@)) && e.tag == tag,
                    Ok(None) => found is None,
                    Err(_) => false,
                }
            }),
    {
        let ghost orig = self.contents();
        loop
            invariant
                orig == old(self).contents(),
                scan_for(orig, tag) == scan_for(self.contents(), tag),
            decreases self.contents().len(),
        {
            match self.queue.pop() {
                None => {
                    return Ok(None);
                },
                Some(e) => {
                    if e.tag == tag {
                        return Ok(Some(e));
                    }
                },
            }
        }
    }
}

} // verus!
