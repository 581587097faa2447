//! The unit of communication: who said what, when, and of which kind.

use crate::clock::{is_clock_text, local_time_text};
use vstd::prelude::*;

verus! {

/// Whether an envelope was written by the relay itself or by a user.
#[derive(Clone, Copy, Debug, PartialEq, Eq, Structural)]
pub enum Kind {
    /// A join or leave notice, generated by the relay.
    SystemNotice,
    /// An ordinary chat line, authored by a user.
    UserText,
}

/// The mathematical value of an [`Envelope`].
pub struct EnvelopeView {
    pub sender: Seq<char>,
    pub body: Seq<char>,
    pub sent_at: Seq<char>,
    pub kind: Kind,
}

/// One chat message as it travels through the relay.
#[derive(Clone, Debug, PartialEq, Eq)]
pub struct Envelope {
    /// The identity that the publishing connection declared at its handshake.
    pub sender: String,
    /// The text of the message.
    pub body: String,
    /// The publisher's wall-clock time, as `HH:MM:SS`.
    pub sent_at: String,
    /// Notice or user text.
    pub kind: Kind,
}

impl View for Envelope {
    type V = EnvelopeView;

    open spec fn view(&self) -> EnvelopeView {
        EnvelopeView {
            sender: self.sender@,
            body: self.body@,
            sent_at: self.sent_at@,
            kind: self.kind,
        }
    }
}

/// The text after the user's name in a join notice.
pub open spec fn joined_suffix() -> Seq<char> {
    " has joined the chat\n"@
}

/// The text after the user's name in a leave notice.
pub open spec fn left_suffix() -> Seq<char> {
    " has left the chat\n"@
}

impl EnvelopeView {
    /// The data model asks that every envelope names a sender.
    pub open spec fn well_formed(self) -> bool {
        self.sender.len() > 0
    }

    /// The notice that `username` has joined, stamped `sent_at`.
    pub open spec fn joined(username: Seq<char>, sent_at: Seq<char>) -> EnvelopeView {
        EnvelopeView {
            sender: username,
            body: username + joined_suffix(),
            sent_at,
            kind: Kind::SystemNotice,
        }
    }

    /// The notice that `username` has left, stamped `sent_at`.
    pub open spec fn left(username: Seq<char>, sent_at: Seq<char>) -> EnvelopeView {
        EnvelopeView {
            sender: username,
            body: username + left_suffix(),
            sent_at,
            kind: Kind::SystemNotice,
        }
    }

    /// A user's line `body`, stamped `sent_at`.
    pub open spec fn user_text(
        username: Seq<char>,
        body: Seq<char>,
        sent_at: Seq<char>,
    ) -> EnvelopeView {
        EnvelopeView { sender: username, body, sent_at, kind: Kind::UserText }
    }
}

impl Envelope {
    /// An envelope with exactly the given fields.
    pub fn stamped(sender: &str, body: &str, sent_at: &str, kind: Kind) -> (envelope: Envelope)
        ensures
            envelope@ == (EnvelopeView { sender: sender@, body: body@, sent_at: sent_at@, kind }),
    {
        Envelope {
            sender: String::from_str(sender),
            body: String::from_str(body),
            sent_at: String::from_str(sent_at),
            kind,
        }
    }

    /// A user's message, stamped with the local time of this call.
    pub fn new(sender: &str, body: &str) -> (envelope: Envelope)
        ensures
            envelope@.sender == sender@,
            envelope@.body == body@,
            envelope@.kind == Kind::UserText,
            is_clock_text(envelope@.sent_at),
    {
        let sent_at = local_time_text();
        Envelope::stamped(sender, body, sent_at.as_str(), Kind::UserText)
    }

    /// A notice of the relay, stamped with the local time of this call.
    pub fn notice(sender: &str, body: &str) -> (envelope: Envelope)
        ensures
            envelope@.sender == sender@,
            envelope@.body == body@,
            envelope@.kind == Kind::SystemNotice,
            is_clock_text(envelope@.sent_at),
    {
        let sent_at = local_time_text();
        Envelope::stamped(sender, body, sent_at.as_str(), Kind::SystemNotice)
    }

    /// A copy with equal fields.
    pub fn duplicate(&self) -> (copy: Envelope)
        ensures
            copy@ == self@,
    {
        Envelope {
            sender: self.sender.clone(),
            body: self.body.clone(),
            sent_at: self.sent_at.clone(),
            kind: self.kind,
        }
    }

    /// The notice that `username` has joined.
    pub fn joined(username: &str, sent_at: &str) -> (envelope: Envelope)
        ensures
            envelope@ == EnvelopeView::joined(username@, sent_at@),
    {
        let body = String::from_str(username).concat(" has joined the chat\n");
        Envelope {
            sender: String::from_str(username),
            body,
            sent_at: String::from_str(sent_at),
            kind: Kind::SystemNotice,
        }
    }

    /// The notice that `username` has left.
    pub fn left(username: &str, sent_at: &str) -> (envelope: Envelope)
        ensures
            envelope@ == EnvelopeView::left(username@, sent_at@),
    {
        let body = String::from_str(username).concat(" has left the chat\n");
        Envelope {
            sender: String::from_str(username),
            body,
            sent_at: String::from_str(sent_at),
            kind: Kind::SystemNotice,
        }
    }
}

} // verus!
