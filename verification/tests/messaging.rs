use mekena::mailbox::Mailbox;
use mekena::message::Envelope;

const A_TAG: u64 = 1;
const B_TAG: u64 = 2;

#[test]
fn envelope_carries_tag_and_payload() {
    let e = Envelope::new(3, vec![10, 20]);
    assert_eq!(e.tag, 3);
    assert_eq!(e.payload, vec![10, 20]);
}

#[test]
fn send_then_recv_round_trips_the_payload() {
    let mut mailbox = Mailbox::new();
    mailbox.send(Envelope::new(A_TAG, vec![5, 6, 7])).unwrap();
    let got = mailbox.recv(A_TAG).unwrap().unwrap();
    assert_eq!(got.tag, A_TAG);
    assert_eq!(got.payload, vec![5, 6, 7]);
}

#[test]
fn recv_on_an_empty_mailbox_would_block() {
    let mut mailbox = Mailbox::new();
    assert!(mailbox.recv(A_TAG).unwrap().is_none());
}

#[test]
fn mismatched_messages_are_dropped_while_scanning() {
    let mut mailbox = Mailbox::new();
    mailbox.send(Envelope::new(A_TAG, vec![1])).unwrap();
    mailbox.send(Envelope::new(B_TAG, vec![2])).unwrap();

    // Receiving the B-typed message succeeds and drops the A-typed message
    // that stood in front of it.
    let got = mailbox.recv(B_TAG).unwrap().unwrap();
    assert_eq!(got.tag, B_TAG);
    assert_eq!(got.payload, vec![2]);

    // The A-typed message was dropped for good: a receiver of it would now
    // wait forever.
    assert!(mailbox.recv(A_TAG).unwrap().is_none());
}

#[test]
fn same_typed_messages_arrive_in_order() {
    let mut mailbox = Mailbox::new();
    mailbox.send(Envelope::new(A_TAG, vec![1])).unwrap();
    mailbox.send(Envelope::new(A_TAG, vec![2])).unwrap();
    mailbox.send(Envelope::new(A_TAG, vec![3])).unwrap();

    assert_eq!(mailbox.recv(A_TAG).unwrap().unwrap().payload, vec![1]);
    assert_eq!(mailbox.recv(A_TAG).unwrap().unwrap().payload, vec![2]);
    assert_eq!(mailbox.recv(A_TAG).unwrap().unwrap().payload, vec![3]);
}

#[test]
fn scanning_keeps_messages_behind_the_match() {
    let mut mailbox = Mailbox::new();
    mailbox.send(Envelope::new(A_TAG, vec![1])).unwrap();
    mailbox.send(Envelope::new(B_TAG, vec![2])).unwrap();
    mailbox.send(Envelope::new(A_TAG, vec![3])).unwrap();

    // The scan for B drops the first A but never reaches the second.
    assert_eq!(mailbox.recv(B_TAG).unwrap().unwrap().payload, vec![2]);
    assert_eq!(mailbox.recv(A_TAG).unwrap().unwrap().payload, vec![3]);
    assert!(mailbox.recv(A_TAG).unwrap().is_none());
}
