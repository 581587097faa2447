use rusty_chat::envelope::{Envelope, Kind};

#[test]
fn stamped_keeps_every_field() {
    let envelope = Envelope::stamped("alice", "hello", "12:34:56", Kind::UserText);
    assert_eq!(
        envelope,
        Envelope {
            sender: "alice".to_string(),
            body: "hello".to_string(),
            sent_at: "12:34:56".to_string(),
            kind: Kind::UserText,
        }
    );
}

#[test]
fn duplicate_is_equal_field_for_field() {
    let envelope = Envelope::stamped("bob", "x\ny", "00:00:00", Kind::SystemNotice);
    assert_eq!(envelope.duplicate(), envelope);
}

#[test]
fn joined_names_the_user_and_says_joined() {
    let notice = Envelope::joined("alice", "08:00:00");
    assert_eq!(
        notice,
        Envelope::stamped("alice", "alice has joined the chat\n", "08:00:00", Kind::SystemNotice)
    );
    assert!(notice.body.starts_with("alice has joined"));
}

#[test]
fn left_names_the_user_and_says_left() {
    let notice = Envelope::left("bob", "08:00:01");
    assert_eq!(
        notice,
        Envelope::stamped("bob", "bob has left the chat\n", "08:00:01", Kind::SystemNotice)
    );
    assert!(notice.body.contains("bob") && notice.body.contains("left"));
    assert!(notice.body.starts_with("bob has left"));
}
