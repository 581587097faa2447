use rusty_chat::envelope::{Envelope, Kind};
use rusty_chat::relay::{Accepted, Connection, Relay, SocketWork};
use rusty_chat::session::{Inbound, Phase};

/// Runs one event of a connection through the relay.
fn feed(relay: &mut Relay, connection: &mut Connection, event: Inbound, now: &str) -> SocketWork {
    relay.handle(connection, event, now)
}

/// Everything that waits for a connection, decoded from the lines that its
/// session writes.
fn receive(relay: &mut Relay, connection: &mut Connection) -> Vec<Envelope> {
    let mut got = Vec::new();
    while let Some(event) = relay.pull(connection) {
        match feed(relay, connection, event, "00:00:00") {
            SocketWork::Write(line) => {
                assert!(line.ends_with('\n'));
                got.push(Envelope::decode(line.trim_end_matches('\n')).unwrap());
            },
            SocketWork::Release => break,
            SocketWork::Nothing => {},
        }
    }
    got
}

fn read(text: &str) -> Inbound {
    Inbound::Line(text.to_string())
}

fn connect(relay: &mut Relay) -> Connection {
    relay.on_accept(Accepted::Connection).unwrap()
}

#[test]
fn a_new_relay_accepts() {
    let relay = Relay::new();
    assert!(relay.is_accepting());
    assert_eq!(relay.hub().capacity(), 100);
    assert_eq!(Relay::with_capacity(5).hub().capacity(), 5);
}

#[test]
fn every_connection_gets_a_session_and_a_subscription() {
    let mut relay = Relay::new();
    let first = connect(&mut relay);
    let second = connect(&mut relay);
    assert_eq!(first.session.phase(), Phase::Handshaking);
    assert_eq!(second.session.phase(), Phase::Handshaking);
    assert_ne!(first.handle, second.handle);
    assert_eq!(relay.hub().backlog(&first.handle), Some(0));
    assert_eq!(relay.hub().backlog(&second.handle), Some(0));
    assert!(relay.is_accepting());
}

#[test]
fn a_failure_of_the_listener_ends_the_loop() {
    let mut relay = Relay::new();
    let mut alice = connect(&mut relay);
    assert_eq!(feed(&mut relay, &mut alice, read("alice\n"), "09:00:00"), SocketWork::Nothing);
    assert!(relay.on_accept(Accepted::Failure).is_none());
    assert!(!relay.is_accepting());
    assert!(!relay.hub().is_open());
    assert!(relay.on_accept(Accepted::Connection).is_none());
    assert_eq!(receive(&mut relay, &mut alice), vec![Envelope::joined("alice", "09:00:00")]);
    assert_eq!(alice.session.phase(), Phase::Closed);
}

#[test]
fn alice_says_hello_and_bob_leaves() {
    let mut relay = Relay::new();
    let mut alice = connect(&mut relay);
    let mut bob = connect(&mut relay);
    assert_eq!(feed(&mut relay, &mut alice, read("alice\n"), "09:00:00"), SocketWork::Nothing);
    assert_eq!(feed(&mut relay, &mut bob, read("bob\n"), "09:00:01"), SocketWork::Nothing);
    receive(&mut relay, &mut alice);
    receive(&mut relay, &mut bob);

    assert_eq!(feed(&mut relay, &mut alice, read("hello\n"), "09:00:02"), SocketWork::Nothing);
    let hello = Envelope::stamped("alice", "hello", "09:00:02", Kind::UserText);
    let for_alice = receive(&mut relay, &mut alice);
    let for_bob = receive(&mut relay, &mut bob);
    assert_eq!(for_alice, vec![hello.duplicate()]);
    assert_eq!(for_bob, vec![hello]);
    assert_eq!(for_bob[0].kind, Kind::UserText);
    assert_eq!(for_bob[0].sender, "alice");
    assert_eq!(for_bob[0].body, "hello");

    assert_eq!(feed(&mut relay, &mut bob, Inbound::EndOfInput, "09:00:03"), SocketWork::Release);
    assert_eq!(bob.session.phase(), Phase::Closed);
    assert_eq!(relay.hub().backlog(&bob.handle), None);
    let for_alice = receive(&mut relay, &mut alice);
    assert_eq!(for_alice.len(), 1);
    assert_eq!(for_alice[0].kind, Kind::SystemNotice);
    assert!(for_alice[0].body.contains("bob"));
    assert!(for_alice[0].body.contains("left"));
    assert_eq!(for_alice[0], Envelope::left("bob", "09:00:03"));
}

#[test]
fn the_lines_on_the_wire_spell_the_kinds_as_the_protocol_does() {
    let mut relay = Relay::new();
    let mut alice = connect(&mut relay);
    feed(&mut relay, &mut alice, read("alice\n"), "09:00:00");
    feed(&mut relay, &mut alice, read("hello\n"), "09:00:01");
    let mut lines = Vec::new();
    while let Some(event) = relay.pull(&alice) {
        if let SocketWork::Write(line) = feed(&mut relay, &mut alice, event, "09:00:02") {
            lines.push(line);
        }
    }
    assert_eq!(
        lines,
        vec![
            "{\"username\":\"alice\",\"content\":\"alice has joined the chat\\n\",\"timestamp\":\"09:00:00\",\"message_type\":\"Broadcast\"}\n",
            "{\"username\":\"alice\",\"content\":\"hello\",\"timestamp\":\"09:00:01\",\"message_type\":\"UserMessage\"}\n",
        ]
    );
}

#[test]
fn an_empty_name_closes_the_connection_and_nobody_hears_of_it() {
    let mut relay = Relay::new();
    let mut alice = connect(&mut relay);
    feed(&mut relay, &mut alice, read("alice\n"), "09:00:00");
    receive(&mut relay, &mut alice);
    let mut nobody = connect(&mut relay);
    assert_eq!(feed(&mut relay, &mut nobody, read("\n"), "09:00:01"), SocketWork::Release);
    assert_eq!(nobody.session.phase(), Phase::Closed);
    assert_eq!(relay.hub().backlog(&nobody.handle), None);
    assert_eq!(relay.hub().retained(), 1);
    assert_eq!(receive(&mut relay, &mut alice), Vec::new());
    assert_eq!(feed(&mut relay, &mut nobody, read("hello\n"), "09:00:02"), SocketWork::Nothing);
    assert_eq!(receive(&mut relay, &mut alice), Vec::new());
}

#[test]
fn a_third_client_sees_interleaved_messages_in_their_order() {
    let mut relay = Relay::new();
    let mut a = connect(&mut relay);
    let mut b = connect(&mut relay);
    let mut c = connect(&mut relay);
    feed(&mut relay, &mut a, read("A\n"), "09:00:00");
    feed(&mut relay, &mut b, read("B\n"), "09:00:00");
    feed(&mut relay, &mut c, read("C\n"), "09:00:00");
    receive(&mut relay, &mut c);
    feed(&mut relay, &mut a, read("A1\n"), "09:00:01");
    feed(&mut relay, &mut b, read("B1\n"), "09:00:01");
    feed(&mut relay, &mut a, read("A2\n"), "09:00:01");
    let seen: Vec<(String, String)> = receive(&mut relay, &mut c)
        .into_iter()
        .map(|envelope| (envelope.sender, envelope.body))
        .collect();
    assert_eq!(
        seen,
        vec![
            ("A".to_string(), "A1".to_string()),
            ("B".to_string(), "B1".to_string()),
            ("A".to_string(), "A2".to_string()),
        ]
    );
}

#[test]
fn a_peer_that_says_nothing_after_its_name_leaves_two_notices() {
    let mut relay = Relay::new();
    let mut watcher = connect(&mut relay);
    feed(&mut relay, &mut watcher, read("watcher\n"), "09:00:00");
    receive(&mut relay, &mut watcher);
    let mut quiet = connect(&mut relay);
    feed(&mut relay, &mut quiet, read("quiet\n"), "09:00:01");
    assert_eq!(feed(&mut relay, &mut quiet, Inbound::EndOfInput, "09:00:02"), SocketWork::Release);
    assert_eq!(
        receive(&mut relay, &mut watcher),
        vec![Envelope::joined("quiet", "09:00:01"), Envelope::left("quiet", "09:00:02")]
    );
}

#[test]
fn a_reader_that_fell_behind_is_closed_and_taken_leave_of() {
    let mut relay = Relay::with_capacity(2);
    let mut slow = connect(&mut relay);
    let mut busy = connect(&mut relay);
    feed(&mut relay, &mut slow, read("slow\n"), "09:00:00");
    feed(&mut relay, &mut busy, read("busy\n"), "09:00:00");
    receive(&mut relay, &mut busy);
    for i in 0..3 {
        feed(&mut relay, &mut busy, read(&format!("m{i}\n")), "09:00:01");
        receive(&mut relay, &mut busy);
    }
    assert_eq!(relay.pull(&slow), Some(Inbound::Overflowed));
    assert_eq!(feed(&mut relay, &mut slow, Inbound::Overflowed, "09:00:02"), SocketWork::Release);
    assert_eq!(receive(&mut relay, &mut busy), vec![Envelope::left("slow", "09:00:02")]);
}

#[test]
fn carry_out_leaves_writes_to_the_socket() {
    let mut relay = Relay::new();
    let connection = connect(&mut relay);
    let work = relay.carry_out(
        &connection.handle,
        rusty_chat::session::Action::Write("line\n".to_string()),
    );
    assert_eq!(work, SocketWork::Write("line\n".to_string()));
    assert_eq!(relay.carry_out(&connection.handle, rusty_chat::session::Action::Skip), SocketWork::Nothing);
    assert_eq!(relay.carry_out(&connection.handle, rusty_chat::session::Action::Nothing), SocketWork::Nothing);
    assert_eq!(relay.hub().retained(), 0);
}

#[test]
fn nothing_is_read_for_a_connection_that_has_not_named_itself() {
    let mut relay = Relay::new();
    let mut alice = connect(&mut relay);
    let mut late = connect(&mut relay);
    feed(&mut relay, &mut alice, read("alice\n"), "09:00:00");
    feed(&mut relay, &mut alice, read("hello\n"), "09:00:01");
    assert_eq!(relay.pull(&late), None);
    assert_eq!(relay.hub().backlog(&late.handle), Some(2));
    feed(&mut relay, &mut late, read("late\n"), "09:00:02");
    assert_eq!(
        receive(&mut relay, &mut late),
        vec![
            Envelope::joined("alice", "09:00:00"),
            Envelope::stamped("alice", "hello", "09:00:01", Kind::UserText),
            Envelope::joined("late", "09:00:02"),
        ]
    );
}

#[test]
fn nothing_is_read_for_a_connection_that_is_closed() {
    let mut relay = Relay::new();
    let mut alice = connect(&mut relay);
    let mut bob = connect(&mut relay);
    feed(&mut relay, &mut alice, read("alice\n"), "09:00:00");
    feed(&mut relay, &mut bob, read("bob\n"), "09:00:00");
    assert_eq!(feed(&mut relay, &mut bob, Inbound::WriteFailed, "09:00:01"), SocketWork::Release);
    assert_eq!(relay.pull(&bob), None);
    assert_eq!(feed(&mut relay, &mut bob, read("ghost\n"), "09:00:02"), SocketWork::Nothing);
    assert_eq!(
        receive(&mut relay, &mut alice),
        vec![
            Envelope::joined("alice", "09:00:00"),
            Envelope::joined("bob", "09:00:00"),
            Envelope::left("bob", "09:00:01"),
        ]
    );
}

#[test]
fn handle_now_stamps_with_the_clock() {
    let mut relay = Relay::new();
    let mut alice = connect(&mut relay);
    assert_eq!(relay.handle_now(&mut alice, read("alice\n")), SocketWork::Nothing);
    let got = receive(&mut relay, &mut alice);
    assert_eq!(got.len(), 1);
    assert_eq!(got[0].body, "alice has joined the chat\n");
    assert!(rusty_chat::clock::is_clock(&got[0].sent_at));
}
