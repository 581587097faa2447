//! One connection of the relay, as a state machine.
//!
//! The task that owns the socket reports what it observed as an
//! [`Inbound`] event; the session answers with the one [`Action`] to
//! perform. The session never touches a socket or the hub itself, so what
//! a connection may publish and write is decided here alone.

use crate::clock::{is_clock_text, local_time_text};
use crate::envelope::{Envelope, EnvelopeView, Kind};
use crate::wire::wire_line;
use vstd::prelude::*;

verus! {

/// Where a connection stands in its life.
#[derive(Clone, Copy, Debug, PartialEq, Eq, Structural)]
pub enum Phase {
    /// Waiting for the first line, which names the user.
    Handshaking,
    /// Reading lines and relaying broadcasts.
    Active,
    /// Released; nothing is read, written or published any more.
    Closed,
}

/// What the connection's task observed.
#[derive(Clone, Debug, PartialEq, Eq)]
pub enum Inbound {
    /// One line was read from the socket; its terminator may still be on it.
    Line(String),
    /// A read brought nothing: the peer has closed.
    EndOfInput,
    /// Reading from the socket failed.
    ReadFailed,
    /// The hub handed over the next envelope for this subscriber.
    Delivery(Envelope),
    /// The hub dropped envelopes that this subscriber had not read yet.
    Overflowed,
    /// The hub has shut down.
    HubClosed,
    /// Writing to the socket failed.
    WriteFailed,
}

/// The mathematical value of an [`Inbound`].
pub enum InboundView {
    Line(Seq<char>),
    EndOfInput,
    ReadFailed,
    Delivery(EnvelopeView),
    Overflowed,
    HubClosed,
    WriteFailed,
}

impl View for Inbound {
    type V = InboundView;

    open spec fn view(&self) -> InboundView {
        match self {
            Inbound::Line(raw) => InboundView::Line(raw@),
            Inbound::EndOfInput => InboundView::EndOfInput,
            Inbound::ReadFailed => InboundView::ReadFailed,
            Inbound::Delivery(envelope) => InboundView::Delivery(envelope@),
            Inbound::Overflowed => InboundView::Overflowed,
            Inbound::HubClosed => InboundView::HubClosed,
            Inbound::WriteFailed => InboundView::WriteFailed,
        }
    }
}

/// What the connection's task has to do next.
#[derive(Clone, Debug, PartialEq, Eq)]
pub enum Action {
    /// Go on waiting.
    Nothing,
    /// Hand the envelope to the hub.
    Publish(Envelope),
    /// Write the line to the socket; it ends in a line feed.
    Write(String),
    /// The delivered envelope came without a line to write: drop it and go
    /// on.
    Skip,
    /// Hand the envelope, if there is one, to the hub; then release the
    /// socket and the subscription.
    Close(Option<Envelope>),
}

/// The mathematical value of an [`Action`].
pub enum ActionView {
    Nothing,
    Publish(EnvelopeView),
    Write(Seq<char>),
    Skip,
    Close(Option<EnvelopeView>),
}

impl View for Action {
    type V = ActionView;

    open spec fn view(&self) -> ActionView {
        match self {
            Action::Nothing => ActionView::Nothing,
            Action::Publish(envelope) => ActionView::Publish(envelope@),
            Action::Write(line) => ActionView::Write(line@),
            Action::Skip => ActionView::Skip,
            Action::Close(None) => ActionView::Close(None),
            Action::Close(Some(envelope)) => ActionView::Close(Some(envelope@)),
        }
    }
}

impl ActionView {
    /// The envelope that the action hands to the hub, if any.
    pub open spec fn published(self) -> Option<EnvelopeView> {
        match self {
            ActionView::Publish(envelope) => Some(envelope),
            ActionView::Close(farewell) => farewell,
            _ => None,
        }
    }
}

/// What a line says: the characters read, without the line terminator
/// (a line feed, or a carriage return and a line feed) at their end.
pub open spec fn line_content(raw: Seq<char>) -> Seq<char> {
    if raw.len() >= 2 && raw[raw.len() - 2] == '\r' && raw[raw.len() - 1] == '\n' {
        raw.take(raw.len() - 2)
    } else if raw.len() >= 1 && raw[raw.len() - 1] == '\n' {
        raw.take(raw.len() - 1)
    } else {
        raw
    }
}

/// What a line says, without its terminator.
pub fn content_of(raw: &str) -> (content: String)
    ensures
        content@ == line_content(raw@),
{
    let n = raw.unicode_len();
    if n >= 2 && raw.get_char(n - 2) == '\r' && raw.get_char(n - 1) == '\n' {
        String::from_str(raw.substring_char(0, n - 2))
    } else if n >= 1 && raw.get_char(n - 1) == '\n' {
        String::from_str(raw.substring_char(0, n - 1))
    } else {
        proof {
            assert(raw@.take(raw@.len() as int) == raw@);
        }
        String::from_str(raw)
    }
}

/// The wire line of the envelope that `event` delivers; none for any other
/// event.
pub open spec fn encoded_of(event: InboundView) -> Option<Seq<char>> {
    match event {
        InboundView::Delivery(envelope) => Some(wire_line(envelope)),
        _ => None,
    }
}

/// The mathematical value of a [`Session`].
pub struct SessionView {
    pub phase: Phase,
    pub username: Seq<char>,
}

impl SessionView {
    /// A connection that was just accepted.
    pub open spec fn initial() -> SessionView {
        SessionView { phase: Phase::Handshaking, username: Seq::empty() }
    }

    /// An active session knows who it speaks for.
    pub open spec fn wf(self) -> bool {
        self.phase is Active ==> self.username.len() > 0
    }

    /// This session, released.
    pub open spec fn closed(self) -> SessionView {
        SessionView { phase: Phase::Closed, username: self.username }
    }

    /// The session after `event`.
    pub open spec fn after(self, event: InboundView) -> SessionView {
        match self.phase {
            Phase::Handshaking => match event {
                InboundView::Line(raw) => if line_content(raw).len() > 0 {
                    SessionView { phase: Phase::Active, username: line_content(raw) }
                } else {
                    self.closed()
                },
                InboundView::Delivery(_) => self,
                _ => self.closed(),
            },
            Phase::Active => match event {
                InboundView::Line(_) => self,
                InboundView::Delivery(_) => self,
                _ => self.closed(),
            },
            Phase::Closed => self,
        }
    }

    /// The answer to `event` at the time `now`. `encoded` is the wire line
    /// of a delivered envelope, or `None` where it could not be encoded; it
    /// matters for a delivery to an active session only.
    pub open spec fn action(
        self,
        event: InboundView,
        now: Seq<char>,
        encoded: Option<Seq<char>>,
    ) -> ActionView {
        match self.phase {
            Phase::Handshaking => match event {
                InboundView::Line(raw) => if line_content(raw).len() > 0 {
                    ActionView::Publish(EnvelopeView::joined(line_content(raw), now))
                } else {
                    ActionView::Close(None)
                },
                InboundView::Delivery(_) => ActionView::Nothing,
                _ => ActionView::Close(None),
            },
            Phase::Active => match event {
                InboundView::Line(raw) => ActionView::Publish(
                    EnvelopeView::user_text(self.username, line_content(raw), now),
                ),
                InboundView::Delivery(_) => match encoded {
                    Some(line) => ActionView::Write(line),
                    None => ActionView::Skip,
                },
                _ => ActionView::Close(Some(EnvelopeView::left(self.username, now))),
            },
            Phase::Closed => ActionView::Nothing,
        }
    }
}

/// The server's side of one connection.
pub struct Session {
    phase: Phase,
    username: String,
}

impl View for Session {
    type V = SessionView;

    closed spec fn view(&self) -> SessionView {
        SessionView { phase: self.phase, username: self.username@ }
    }
}

impl Session {
    #[verifier::type_invariant]
    spec fn inv(self) -> bool {
        self.phase is Active ==> self.username@.len() > 0
    }

    /// The session of a connection that was just accepted.
    pub fn new() -> (session: Session)
        ensures
            session@ == SessionView::initial(),
    {
        Session { phase: Phase::Handshaking, username: String::new() }
    }

    /// Where the connection stands.
    pub fn phase(&self) -> (phase: Phase)
        ensures
            phase == self@.phase,
    {
        self.phase
    }

    /// The name given at the handshake; empty before it.
    pub fn username(&self) -> (name: &str)
        ensures
            name@ == self@.username,
            self@.wf(),
    {
        proof {
            use_type_invariant(self);
        }
        self.username.as_str()
    }

    /// Answers `event` at the time `now`, where a delivered envelope has
    /// already been put through the encoder: `encoded` is its wire line, or
    /// `None` if the encoder refused it.
    pub fn settle(&mut self, event: Inbound, now: &str, encoded: Option<String>) -> (action:
        Action)
        ensures
            final(self)@ == old(self)@.after(event@),
            action@ == old(self)@.action(
                event@,
                now@,
                match encoded {
                    Some(line) => Some(line@),
                    None => None,
                },
            ),
            old(self)@.wf(),
            final(self)@.wf(),
            action@.published() matches Some(envelope) ==> envelope.well_formed(),
    {
        proof {
            use_type_invariant(&*self);
        }
        match self.phase {
            Phase::Handshaking => match event {
                Inbound::Line(raw) => {
                    let name = content_of(raw.as_str());
                    if name.as_str().unicode_len() > 0 {
                        let hello = Envelope::joined(name.as_str(), now);
                        self.username = name;
                        self.phase = Phase::Active;
                        Action::Publish(hello)
                    } else {
                        self.phase = Phase::Closed;
                        Action::Close(None)
                    }
                },
                Inbound::Delivery(_) => Action::Nothing,
                _ => {
                    self.phase = Phase::Closed;
                    Action::Close(None)
                },
            },
            Phase::Active => match event {
                Inbound::Line(raw) => {
                    let body = content_of(raw.as_str());
                    Action::Publish(
                        Envelope::stamped(self.username.as_str(), body.as_str(), now, Kind::UserText),
                    )
                },
                Inbound::Delivery(_) => match encoded {
                    Some(line) => Action::Write(line),
                    None => Action::Skip,
                },
                _ => self.leave(now),
            },
            Phase::Closed => Action::Nothing,
        }
    }

    fn leave(&mut self, now: &str) -> (action: Action)
        requires
            old(self)@.phase is Active,
        ensures
            final(self)@ == old(self)@.closed(),
            action@ == ActionView::Close(Some(EnvelopeView::left(old(self)@.username, now@))),
            old(self)@.username.len() > 0,
    {
        proof {
            use_type_invariant(&*self);
        }
        let farewell = Envelope::left(self.username.as_str(), now);
        self.phase = Phase::Closed;
        Action::Close(Some(farewell))
    }

    /// Answers `event` at the time `now`. An envelope delivered to an
    /// active session is encoded and written as its line of the wire.
    pub fn react(&mut self, event: Inbound, now: &str) -> (action: Action)
        ensures
            final(self)@ == old(self)@.after(event@),
            action@ == old(self)@.action(event@, now@, encoded_of(event@)),
            action@.published() matches Some(envelope) ==> envelope.well_formed(),
    {
        let encoded = match &event {
            Inbound::Delivery(envelope) => match envelope.encode_line() {
                Ok(line) => Some(line),
                Err(_) => None,
            },
            _ => None,
        };
        self.settle(event, now, encoded)
    }

    /// Answers `event` at the local time of this call.
    pub fn react_now(&mut self, event: Inbound) -> (action: Action)
        ensures
            final(self)@ == old(self)@.after(event@),
            exists|now: Seq<char>|
                is_clock_text(now) && action@ == #[trigger] old(self)@.action(
                    event@,
                    now,
                    encoded_of(event@),
                ),
            action@.published() matches Some(envelope) ==> envelope.well_formed(),
    {
        let now = local_time_text();
        self.react(event, now.as_str())
    }
}

/// One step in the history of a connection: what its task observed, the
/// time then, and the encoder's answer where an envelope was delivered.
pub struct Step {
    pub event: InboundView,
    pub now: Seq<char>,
    pub encoded: Option<Seq<char>>,
}

impl SessionView {
    /// Everything that the session hands to the hub over `history`, in order.
    pub open spec fn publications(self, history: Seq<Step>) -> Seq<EnvelopeView>
        decreases history.len(),
    {
        if history.len() == 0 {
            Seq::empty()
        } else {
            let step = history[0];
            let later = self.after(step.event).publications(history.drop_first());
            match self.action(step.event, step.now, step.encoded).published() {
                Some(envelope) => seq![envelope] + later,
                None => later,
            }
        }
    }
}

/// The place in `history` of the first event that is not a delivery, or the
/// length of `history` if it holds deliveries only.
pub open spec fn first_ending(history: Seq<Step>) -> int
    decreases history.len(),
{
    if history.len() == 0 {
        0
    } else if !(history[0].event is Delivery) {
        0
    } else {
        1 + first_ending(history.drop_first())
    }
}

/// A released session publishes nothing, whatever happens.
pub proof fn lemma_closed_is_silent(session: SessionView, history: Seq<Step>)
    requires
        session.phase is Closed,
    ensures
        session.publications(history) == Seq::<EnvelopeView>::empty(),
    decreases history.len(),
{
    if history.len() > 0 {
        lemma_closed_is_silent(session.after(history[0].event), history.drop_first());
    }
}

/// An active session whose peer sends no further line publishes its leave
/// notice at the first event that is not a delivery, and nothing else.
pub proof fn lemma_active_and_silent(session: SessionView, history: Seq<Step>)
    requires
        session.phase is Active,
        forall|i: int| 0 <= i < history.len() ==> !((#[trigger] history[i]).event is Line),
        exists|i: int| 0 <= i < history.len() && !((#[trigger] history[i]).event is Delivery),
    ensures
        0 <= first_ending(history) < history.len(),
        session.publications(history) == seq![
            EnvelopeView::left(session.username, history[first_ending(history)].now),
        ],
    decreases history.len(),
{
    let step = history[0];
    let rest = history.drop_first();
    if step.event is Delivery {
        let witness = choose|i: int|
            0 <= i < history.len() && !((#[trigger] history[i]).event is Delivery);
        assert(rest[witness - 1] == history[witness]);
        assert forall|i: int| 0 <= i < rest.len() implies !((#[trigger] rest[i]).event is Line) by {
            assert(rest[i] == history[i + 1]);
        }
        lemma_active_and_silent(session, rest);
        assert(rest[first_ending(rest)] == history[first_ending(rest) + 1]);
    } else {
        lemma_closed_is_silent(session.closed(), rest);
    }
}

/// A peer that names itself and then sends nothing more is announced once
/// and taken leave of once, and no user text is published in its name:
/// whatever is delivered to it meanwhile, and whichever of the end of its
/// input or a failure of its connection comes first.
pub proof fn law_silent_peer(name_line: Seq<char>, joined_at: Seq<char>, history: Seq<Step>)
    requires
        line_content(name_line).len() > 0,
        forall|i: int| 0 <= i < history.len() ==> !((#[trigger] history[i]).event is Line),
        exists|i: int| 0 <= i < history.len() && (#[trigger] history[i]).event is EndOfInput,
    ensures
        0 <= first_ending(history) < history.len(),
        SessionView::initial().publications(
            seq![Step { event: InboundView::Line(name_line), now: joined_at, encoded: None }]
                + history,
        ) == seq![
            EnvelopeView::joined(line_content(name_line), joined_at),
            EnvelopeView::left(line_content(name_line), history[first_ending(history)].now),
        ],
{
    let name = line_content(name_line);
    let first = Step { event: InboundView::Line(name_line), now: joined_at, encoded: None };
    let whole = seq![first] + history;
    let active = SessionView { phase: Phase::Active, username: name };
    assert(whole[0] == first);
    assert(whole.drop_first() == history);
    assert(SessionView::initial().after(first.event) == active);
    let witness = choose|i: int|
        0 <= i < history.len() && (#[trigger] history[i]).event is EndOfInput;
    assert(!(history[witness].event is Delivery));
    lemma_active_and_silent(active, history);
}

/// A connection that ends, fails or sends an empty line before it has named
/// its user is released without a word: nothing is ever published for it.
pub proof fn law_refused_handshake_is_silent(history: Seq<Step>)
    requires
        history.len() > 0,
        !(history[0].event is Delivery),
        history[0].event matches InboundView::Line(raw) ==> line_content(raw).len() == 0,
    ensures
        SessionView::initial().publications(history) == Seq::<EnvelopeView>::empty(),
{
    lemma_closed_is_silent(SessionView::initial().closed(), history.drop_first());
}

} // verus!
