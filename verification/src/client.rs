//! The client's side of the line protocol: which line goes out for what the
//! user submits, and what is shown for a line that comes in.

use crate::envelope::{Envelope, EnvelopeView};
use crate::wire::{envelope_of_text, CodecError};
use vstd::prelude::*;

verus! {

/// What a submitted text asks of the user interface itself.
#[derive(Clone, Copy, Debug, PartialEq, Eq, Structural)]
pub enum UiCommand {
    /// Nothing.
    Keep,
    /// Empty the message view.
    ClearMessages,
    /// Leave the program.
    Quit,
}

/// What to do with one submitted text.
#[derive(Clone, Debug, PartialEq, Eq)]
pub struct Submission {
    /// What the user interface does.
    pub command: UiCommand,
    /// The line to send to the relay, line feed included, if any.
    pub line: Option<String>,
}

/// The name under which a user joins who gave none.
pub open spec fn default_identity() -> Seq<char> {
    "Anonymous"@
}

/// `text` as one line of the protocol.
pub open spec fn line_of(text: Seq<char>) -> Seq<char> {
    text + seq!['\n']
}

/// What `text` asks of the user interface.
pub open spec fn command_of(text: Seq<char>) -> UiCommand {
    if text == "clear"@ {
        UiCommand::ClearMessages
    } else if text == "/quit"@ {
        UiCommand::Quit
    } else {
        UiCommand::Keep
    }
}

/// What the message view shows for an envelope: the time in brackets, the
/// sender, a colon, the body, and a line feed.
pub open spec fn rendered(e: EnvelopeView) -> Seq<char> {
    seq!['['] + e.sent_at + seq![']', ' '] + e.sender + seq![':', ' '] + e.body + seq!['\n']
}

/// The name to join under: the argument given, or the default identity.
pub fn identity(argument: Option<String>) -> (name: String)
    ensures
        name@ == match argument {
            Some(given) => given@,
            None => default_identity(),
        },
{
    match argument {
        Some(given) => given,
        None => String::from_str("Anonymous"),
    }
}

/// `text` as one line of the protocol: the first line names the user, every
/// later one is a message.
pub fn outgoing(text: &str) -> (line: String)
    ensures
        line@ == line_of(text@),
{
    proof {
        reveal_strlit("\n");
    }
    String::from_str(text).concat("\n")
}

/// Decides what happens to a text that the user submitted. An empty text is
/// dropped. Every other text is sent to the relay as a line, the two
/// commands of the user interface too, which are carried out as well.
pub fn submit(text: &str) -> (submission: Submission)
    ensures
        text@.len() == 0 ==> submission.command == UiCommand::Keep && submission.line is None,
        text@.len() > 0 ==> submission.command == command_of(text@) && (submission.line matches Some(
            sent,
        ) && sent@ == line_of(text@)),
{
    if text.unicode_len() == 0 {
        return Submission { command: UiCommand::Keep, line: None };
    }
    let typed = String::from_str(text);
    let command = if typed == String::from_str("clear") {
        UiCommand::ClearMessages
    } else if typed == String::from_str("/quit") {
        UiCommand::Quit
    } else {
        UiCommand::Keep
    };
    Submission { command, line: Some(outgoing(text)) }
}

/// What the message view shows for `envelope`.
pub fn render(envelope: &Envelope) -> (shown: String)
    ensures
        shown@ == rendered(envelope@),
{
    proof {
        reveal_strlit("[");
        reveal_strlit("] ");
        reveal_strlit(": ");
        reveal_strlit("\n");
    }
    let mut shown = String::from_str("[");
    shown.append(envelope.sent_at.as_str());
    shown.append("] ");
    shown.append(envelope.sender.as_str());
    shown.append(": ");
    shown.append(envelope.body.as_str());
    shown.append("\n");
    proof {
        assert("] "@ == seq![']', ' ']);
        assert(": "@ == seq![':', ' ']);
    }
    shown
}

/// What the message view shows for a line received from the relay, without
/// its terminator; nothing for a line that carries no envelope.
pub fn display(received: &str) -> (shown: Option<String>)
    ensures
        match shown {
            Some(text) => envelope_of_text(received@) matches Ok(e) && text@ == rendered(e),
            None => envelope_of_text(received@) is Err,
        },
{
    match Envelope::decode(received) {
        Ok(envelope) => Some(render(&envelope)),
        Err(_) => None,
    }
}

} // verus!
