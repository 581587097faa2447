use rusty_chat::client::{display, identity, outgoing, render, submit, Submission, UiCommand};
use rusty_chat::envelope::{Envelope, Kind};

#[test]
fn identity_is_the_argument_or_anonymous() {
    assert_eq!(identity(Some("alice".to_string())), "alice");
    assert_eq!(identity(Some(String::new())), "");
    assert_eq!(identity(None), "Anonymous");
}

#[test]
fn outgoing_adds_the_line_feed() {
    assert_eq!(outgoing("alice"), "alice\n");
    assert_eq!(outgoing(""), "\n");
    assert_eq!(outgoing("two words"), "two words\n");
}

#[test]
fn an_empty_text_is_dropped() {
    assert_eq!(submit(""), Submission { command: UiCommand::Keep, line: None });
}

#[test]
fn a_text_is_sent_as_a_line() {
    assert_eq!(
        submit("hello there"),
        Submission { command: UiCommand::Keep, line: Some("hello there\n".to_string()) }
    );
    assert_eq!(submit(" "), Submission { command: UiCommand::Keep, line: Some(" \n".to_string()) });
}

#[test]
fn clear_empties_the_view_and_is_sent_too() {
    assert_eq!(
        submit("clear"),
        Submission { command: UiCommand::ClearMessages, line: Some("clear\n".to_string()) }
    );
    assert_eq!(submit("Clear").command, UiCommand::Keep);
    assert_eq!(submit("clear ").command, UiCommand::Keep);
}

#[test]
fn quit_leaves_and_is_sent_too() {
    assert_eq!(
        submit("/quit"),
        Submission { command: UiCommand::Quit, line: Some("/quit\n".to_string()) }
    );
    assert_eq!(submit("quit").command, UiCommand::Keep);
}

#[test]
fn render_shows_time_sender_and_body() {
    let envelope = Envelope::stamped("alice", "hello", "12:34:56", Kind::UserText);
    assert_eq!(render(&envelope), "[12:34:56] alice: hello\n");
    let notice = Envelope::joined("bob", "00:00:01");
    assert_eq!(render(&notice), "[00:00:01] bob: bob has joined the chat\n\n");
}

#[test]
fn display_shows_a_line_of_the_relay() {
    let envelope = Envelope::stamped("alice", "hello", "12:34:56", Kind::UserText);
    let received = envelope.encode().unwrap();
    assert_eq!(display(&received), Some("[12:34:56] alice: hello\n".to_string()));
}

#[test]
fn display_shows_nothing_for_other_lines() {
    assert_eq!(display("hello"), None);
    assert_eq!(display(""), None);
    assert_eq!(display("{\"username\":\"alice\"}"), None);
}
