use nostr_sdk::error::Error;
use nostr_sdk::mailbox::Mailbox;

#[test]
fn mailbox_hands_out_in_order() {
    let mut mailbox: Mailbox<u64> = Mailbox::new(3);
    assert!(mailbox.is_empty());
    assert_eq!(mailbox.try_send(7), Ok(()));
    assert_eq!(mailbox.try_send(8), Ok(()));
    assert_eq!(mailbox.len(), 2);
    assert_eq!(mailbox.peek(), Some(&7));
    assert_eq!(mailbox.get(0), &7);
    assert_eq!(mailbox.get(1), &8);
    assert_eq!(mailbox.try_recv(), Some(7));
    assert_eq!(mailbox.try_recv(), Some(8));
    assert_eq!(mailbox.try_recv(), None);
}

#[test]
fn mailbox_refuses_when_full() {
    let mut mailbox: Mailbox<u64> = Mailbox::new(2);
    assert_eq!(mailbox.try_send(1), Ok(()));
    assert_eq!(mailbox.try_send(2), Ok(()));
    assert!(mailbox.is_full());
    assert_eq!(mailbox.try_send(3), Err(Error::QueueFull));
    assert_eq!(mailbox.len(), 2);
    assert_eq!(mailbox.try_recv(), Some(1));
    assert_eq!(mailbox.try_send(3), Ok(()));
    assert_eq!(mailbox.try_recv(), Some(2));
    assert_eq!(mailbox.try_recv(), Some(3));
}

#[test]
fn mailbox_without_room_takes_nothing() {
    let mut mailbox: Mailbox<u64> = Mailbox::new(0);
    assert!(mailbox.is_full());
    assert_eq!(mailbox.try_send(1), Err(Error::QueueFull));
    assert_eq!(mailbox.peek(), None);
}

#[test]
fn mailbox_clear_drops_everything() {
    let mut mailbox: Mailbox<u64> = Mailbox::new(4);
    assert_eq!(mailbox.try_send(1), Ok(()));
    assert_eq!(mailbox.try_send(2), Ok(()));
    mailbox.clear();
    assert_eq!(mailbox.len(), 0);
    assert_eq!(mailbox.try_recv(), None);
}
