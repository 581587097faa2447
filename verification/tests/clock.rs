use rusty_chat::clock::is_clock;
use rusty_chat::envelope::{Envelope, Kind};

#[test]
fn is_clock_takes_times_of_day() {
    for text in ["00:00:00", "12:34:56", "23:59:59", "23:59:60", "09:05:07"] {
        assert!(is_clock(text), "{text}");
    }
}

#[test]
fn is_clock_refuses_everything_else() {
    for text in [
        "", "1:02:03", "24:00:00", "12:60:00", "12:00:61", "12-00-00", "12:00:0", "12:00:000",
        "ab:cd:ef", " 2:00:00", "12:00:00 ", "12：00：00", "１２:00:00", "12:00", "99:99:99",
    ] {
        assert!(!is_clock(text), "{text}");
    }
}

#[test]
fn a_new_envelope_is_user_text_stamped_with_the_time() {
    let envelope = Envelope::new("alice", "hello");
    assert_eq!(envelope.sender, "alice");
    assert_eq!(envelope.body, "hello");
    assert_eq!(envelope.kind, Kind::UserText);
    assert!(is_clock(&envelope.sent_at), "{}", envelope.sent_at);
}

#[test]
fn a_notice_is_stamped_with_the_time() {
    let envelope = Envelope::notice("alice", "alice has joined the chat\n");
    assert_eq!(envelope.sender, "alice");
    assert_eq!(envelope.body, "alice has joined the chat\n");
    assert_eq!(envelope.kind, Kind::SystemNotice);
    assert!(is_clock(&envelope.sent_at), "{}", envelope.sent_at);
}
