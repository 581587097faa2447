use rusty_chat::envelope::{Envelope, Kind};
use rusty_chat::hub::{Hub, Next, SubscriberHandle, DEFAULT_CAPACITY};

fn text(sender: &str, body: &str) -> Envelope {
    Envelope::stamped(sender, body, "12:00:00", Kind::UserText)
}

fn drain(hub: &mut Hub, handle: &SubscriberHandle) -> Vec<Envelope> {
    let mut got = Vec::new();
    while let Next::Envelope(envelope) = hub.next(handle) {
        got.push(envelope);
    }
    got
}

#[test]
fn a_new_hub_is_open_and_empty() {
    let hub = Hub::new();
    assert_eq!(DEFAULT_CAPACITY, 100);
    assert_eq!(hub.capacity(), 100);
    assert_eq!(hub.retained(), 0);
    assert!(hub.is_open());
    assert_eq!(Hub::with_capacity(3).capacity(), 3);
}

#[test]
fn publishing_works_without_subscribers() {
    let mut hub = Hub::with_capacity(2);
    assert!(hub.publish(text("alice", "1")));
    assert!(hub.publish(text("alice", "2")));
    assert!(hub.publish(text("alice", "3")));
    assert_eq!(hub.retained(), 2);
}

#[test]
fn a_subscriber_gets_what_is_published_after_it_subscribed() {
    let mut hub = Hub::new();
    hub.publish(text("alice", "before"));
    let handle = hub.subscribe();
    assert_eq!(hub.backlog(&handle), Some(0));
    assert_eq!(hub.next(&handle), Next::Pending);
    hub.publish(text("alice", "one"));
    hub.publish(text("bob", "two"));
    assert_eq!(hub.backlog(&handle), Some(2));
    assert_eq!(hub.next(&handle), Next::Envelope(text("alice", "one")));
    assert_eq!(hub.next(&handle), Next::Envelope(text("bob", "two")));
    assert_eq!(hub.next(&handle), Next::Pending);
    assert_eq!(hub.next(&handle), Next::Pending);
}

#[test]
fn every_subscriber_gets_every_envelope_in_the_order_of_publication() {
    let mut hub = Hub::new();
    let handles = [hub.subscribe(), hub.subscribe(), hub.subscribe()];
    let sent = vec![text("a", "A1"), text("b", "B1"), text("a", "A2")];
    for envelope in &sent {
        hub.publish(envelope.duplicate());
    }
    for handle in &handles {
        assert_eq!(drain(&mut hub, handle), sent);
    }
}

#[test]
fn readers_at_different_speeds_see_the_same_stream() {
    let mut hub = Hub::with_capacity(8);
    let fast = hub.subscribe();
    let slow = hub.subscribe();
    let mut fast_got = Vec::new();
    let mut sent = Vec::new();
    for i in 0..8 {
        let envelope = text("a", &format!("m{i}"));
        sent.push(envelope.duplicate());
        hub.publish(envelope);
        fast_got.extend(drain(&mut hub, &fast));
    }
    assert_eq!(fast_got, sent);
    assert_eq!(hub.backlog(&slow), Some(8));
    assert_eq!(drain(&mut hub, &slow), sent);
}

#[test]
fn a_stalled_reader_blocks_nobody() {
    let mut hub = Hub::with_capacity(4);
    let stalled = hub.subscribe();
    let reader = hub.subscribe();
    let mut got = Vec::new();
    let mut sent = Vec::new();
    for i in 0..50 {
        let envelope = text("a", &format!("m{i}"));
        sent.push(envelope.duplicate());
        assert!(hub.publish(envelope));
        assert!(hub.retained() <= 4);
        got.extend(drain(&mut hub, &reader));
    }
    assert_eq!(got, sent);
    assert_eq!(hub.backlog(&stalled), None);
    assert_eq!(hub.next(&stalled), Next::Overflowed);
}

#[test]
fn a_reader_is_cut_off_when_more_than_the_capacity_waits() {
    let mut hub = Hub::with_capacity(3);
    let handle = hub.subscribe();
    for i in 0..3 {
        hub.publish(text("a", &format!("m{i}")));
    }
    assert_eq!(hub.backlog(&handle), Some(3));
    hub.publish(text("a", "m3"));
    assert_eq!(hub.backlog(&handle), None);
    assert_eq!(hub.next(&handle), Next::Overflowed);
    hub.publish(text("a", "m4"));
    assert_eq!(hub.next(&handle), Next::Overflowed);
}

#[test]
fn a_reader_that_keeps_up_with_a_full_window_is_not_cut_off() {
    let mut hub = Hub::with_capacity(2);
    let handle = hub.subscribe();
    hub.publish(text("a", "m0"));
    hub.publish(text("a", "m1"));
    assert_eq!(hub.next(&handle), Next::Envelope(text("a", "m0")));
    hub.publish(text("a", "m2"));
    assert_eq!(hub.backlog(&handle), Some(2));
    assert_eq!(drain(&mut hub, &handle), vec![text("a", "m1"), text("a", "m2")]);
}

#[test]
fn a_handle_that_is_not_subscribed_gets_nothing() {
    let mut hub = Hub::new();
    let stranger = SubscriberHandle { slot: 7 };
    assert_eq!(hub.next(&stranger), Next::Unsubscribed);
    assert_eq!(hub.backlog(&stranger), None);
    hub.unsubscribe(&stranger);
    let handle = hub.subscribe();
    hub.publish(text("a", "x"));
    hub.unsubscribe(&handle);
    assert_eq!(hub.next(&handle), Next::Unsubscribed);
    assert_eq!(hub.backlog(&handle), None);
}

#[test]
fn a_vacant_slot_is_given_out_again() {
    let mut hub = Hub::new();
    let first = hub.subscribe();
    let second = hub.subscribe();
    let third = hub.subscribe();
    assert_eq!((first.slot, second.slot, third.slot), (0, 1, 2));
    hub.unsubscribe(&second);
    hub.publish(text("a", "old"));
    let again = hub.subscribe();
    assert_eq!(again.slot, 1);
    assert_eq!(hub.next(&again), Next::Pending);
    assert_eq!(hub.subscribe().slot, 3);
    assert_eq!(hub.next(&first), Next::Envelope(text("a", "old")));
}

#[test]
fn a_hub_that_shut_down_is_drained_and_then_closed() {
    let mut hub = Hub::new();
    let handle = hub.subscribe();
    hub.publish(text("a", "last"));
    hub.shut_down();
    assert!(!hub.is_open());
    assert!(!hub.publish(text("a", "too late")));
    assert_eq!(hub.retained(), 1);
    assert_eq!(hub.next(&handle), Next::Envelope(text("a", "last")));
    assert_eq!(hub.next(&handle), Next::Closed);
    assert_eq!(hub.next(&handle), Next::Closed);
}

#[test]
fn the_hub_hands_out_what_it_was_given_unchanged() {
    let mut hub = Hub::new();
    let handle = hub.subscribe();
    let envelope = Envelope::stamped("zoë", "x\ny \"z\"", "23:59:60", Kind::SystemNotice);
    hub.publish(envelope.duplicate());
    assert_eq!(hub.next(&handle), Next::Envelope(envelope));
}
