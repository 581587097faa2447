//! The relay: the accept loop's rules and the hub that its sessions share.
//!
//! The relay is made once, before the first connection is accepted, and is
//! handed to every connection's task. A task reports what it observed on
//! its socket, or what the hub held for it, and is told what is left to do
//! on its socket.

use crate::clock::{is_clock_text, local_time_text};
use crate::hub::{Hub, HubView, Next, NextView, SubscriberHandle, DEFAULT_CAPACITY};
use crate::session::{
    encoded_of, Action, ActionView, Inbound, InboundView, Phase, Session, SessionView,
};
use vstd::prelude::*;

verus! {

/// The address that the relay listens on unless another is asked for.
pub const DEFAULT_ADDRESS: &'static str = "127.0.0.1:6969";

/// What one turn of the accept loop brought.
#[derive(Clone, Copy, Debug, PartialEq, Eq, Structural)]
pub enum Accepted {
    /// A new connection.
    Connection,
    /// The listener itself failed.
    Failure,
}

/// What a task has to do on its own socket after the hub's part is done.
#[derive(Clone, Debug, PartialEq, Eq)]
pub enum SocketWork {
    /// Nothing.
    Nothing,
    /// Write this line.
    Write(String),
    /// Close the socket and end the task.
    Release,
}

/// The mathematical value of a [`SocketWork`].
pub enum SocketWorkView {
    Nothing,
    Write(Seq<char>),
    Release,
}

impl View for SocketWork {
    type V = SocketWorkView;

    open spec fn view(&self) -> SocketWorkView {
        match self {
            SocketWork::Nothing => SocketWorkView::Nothing,
            SocketWork::Write(line) => SocketWorkView::Write(line@),
            SocketWork::Release => SocketWorkView::Release,
        }
    }
}

/// What the relay holds for one accepted connection.
pub struct Connection {
    /// The connection's state machine.
    pub session: Session,
    /// Its subscription to the hub.
    pub handle: SubscriberHandle,
}

/// The mathematical value of a [`Relay`].
pub struct RelayView {
    /// The hub that the sessions share.
    pub hub: HubView,
    /// Whether the accept loop goes on.
    pub accepting: bool,
}

impl RelayView {
    /// The hub is well formed.
    pub open spec fn wf(self) -> bool {
        self.hub.wf()
    }

    /// The relay after one turn of the accept loop: a connection gets a
    /// subscription; a failure of the listener ends the loop and shuts the
    /// hub down.
    pub open spec fn after_accept(self, outcome: Accepted) -> RelayView {
        if !self.accepting {
            self
        } else {
            match outcome {
                Accepted::Connection => RelayView { hub: self.hub.subscribed(), ..self },
                Accepted::Failure => RelayView { hub: self.hub.shut(), accepting: false },
            }
        }
    }

    /// The hub after a session's answer has been carried out for the
    /// subscriber at `slot`.
    pub open spec fn carried_out(self, slot: int, action: ActionView) -> RelayView {
        match action {
            ActionView::Publish(envelope) => RelayView {
                hub: self.hub.published(envelope),
                ..self
            },
            ActionView::Close(Some(farewell)) => RelayView {
                hub: self.hub.published(farewell).unsubscribed(slot),
                ..self
            },
            ActionView::Close(None) => RelayView { hub: self.hub.unsubscribed(slot), ..self },
            _ => self,
        }
    }
}

/// What is left for the socket once the hub's part of `action` is done.
pub open spec fn socket_work(action: ActionView) -> SocketWorkView {
    match action {
        ActionView::Write(line) => SocketWorkView::Write(line),
        ActionView::Close(_) => SocketWorkView::Release,
        _ => SocketWorkView::Nothing,
    }
}

/// The event that a session is told for what the hub handed over; none
/// while nothing waits.
pub open spec fn event_of(next: NextView) -> Option<InboundView> {
    match next {
        NextView::Envelope(envelope) => Some(InboundView::Delivery(envelope)),
        NextView::Pending => None,
        NextView::Overflowed => Some(InboundView::Overflowed),
        NextView::Closed => Some(InboundView::HubClosed),
        NextView::Unsubscribed => Some(InboundView::HubClosed),
    }
}

/// The server: its hub and the state of its accept loop.
pub struct Relay {
    hub: Hub,
    accepting: bool,
}

impl View for Relay {
    type V = RelayView;

    closed spec fn view(&self) -> RelayView {
        RelayView { hub: self.hub@, accepting: self.accepting }
    }
}

impl Relay {
    /// A relay whose hub keeps `capacity` envelopes, ready to accept.
    pub fn with_capacity(capacity: usize) -> (relay: Relay)
        requires
            capacity >= 1,
        ensures
            relay@ == (RelayView { hub: HubView::empty(capacity as nat), accepting: true }),
            relay@.wf(),
    {
        Relay { hub: Hub::with_capacity(capacity), accepting: true }
    }

    /// A relay with a hub of the default capacity, ready to accept.
    pub fn new() -> (relay: Relay)
        ensures
            relay@ == (RelayView { hub: HubView::empty(DEFAULT_CAPACITY as nat), accepting: true }),
            relay@.wf(),
    {
        Relay::with_capacity(DEFAULT_CAPACITY)
    }

    /// Whether the accept loop goes on.
    pub fn is_accepting(&self) -> (accepting: bool)
        ensures
            accepting == self@.accepting,
    {
        self.accepting
    }

    /// The hub that the sessions share.
    pub fn hub(&self) -> (hub: &Hub)
        ensures
            hub@ == self@.hub,
    {
        &self.hub
    }

    /// One turn of the accept loop. A connection gets a session of its own
    /// and a subscription, and the loop goes on without waiting for it. A
    /// failure of the listener is final: the loop ends and the hub shuts
    /// down.
    pub fn on_accept(&mut self, outcome: Accepted) -> (connection: Option<Connection>)
        requires
            old(self)@.wf(),
        ensures
            final(self)@.wf(),
            final(self)@ == old(self)@.after_accept(outcome),
            match connection {
                Some(connection) => {
                    &&& old(self)@.accepting
                    &&& outcome == Accepted::Connection
                    &&& connection.session@ == SessionView::initial()
                    &&& connection.handle.slot == old(self)@.hub.next_slot()
                    &&& final(self)@.hub.live(connection.handle.slot as int)
                },
                None => !old(self)@.accepting || outcome == Accepted::Failure,
            },
    {
        if !self.accepting {
            return None;
        }
        match outcome {
            Accepted::Connection => {
                let handle = self.hub.subscribe();
                Some(Connection { session: Session::new(), handle })
            },
            Accepted::Failure => {
                self.hub.shut_down();
                self.accepting = false;
                None
            },
        }
    }

    /// Asks the hub for the next envelope of an active connection and says
    /// what its session is to be told; nothing while nothing waits. A
    /// connection that is not active is not read for: what waits for it
    /// during its handshake is still there when it becomes active.
    pub fn pull(&mut self, connection: &Connection) -> (event: Option<Inbound>)
        requires
            old(self)@.wf(),
        ensures
            final(self)@.wf(),
            final(self)@.accepting == old(self)@.accepting,
            connection.session@.phase is Active ==> {
                &&& final(self)@.hub == old(self)@.hub.advanced(connection.handle.slot as int)
                &&& match event {
                    Some(event) => event_of(
                        old(self)@.hub.delivery(connection.handle.slot as int),
                    ) == Some(event@),
                    None => event_of(old(self)@.hub.delivery(connection.handle.slot as int))
                        is None,
                }
            },
            !(connection.session@.phase is Active) ==> final(self)@ == old(self)@ && event is None,
    {
        match connection.session.phase() {
            Phase::Active => {},
            _ => {
                return None;
            },
        }
        match self.hub.next(&connection.handle) {
            Next::Envelope(envelope) => Some(Inbound::Delivery(envelope)),
            Next::Pending => None,
            Next::Overflowed => Some(Inbound::Overflowed),
            Next::Closed => Some(Inbound::HubClosed),
            Next::Unsubscribed => Some(Inbound::HubClosed),
        }
    }

    /// Carries out the hub's part of a session's answer and hands back what
    /// is left for the socket: an envelope is published; a closing session
    /// has its farewell published and then gives up its subscription.
    pub fn carry_out(&mut self, handle: &SubscriberHandle, action: Action) -> (work: SocketWork)
        requires
            old(self)@.wf(),
        ensures
            final(self)@.wf(),
            final(self)@ == old(self)@.carried_out(handle.slot as int, action@),
            work@ == socket_work(action@),
    {
        match action {
            Action::Nothing => SocketWork::Nothing,
            Action::Skip => SocketWork::Nothing,
            Action::Publish(envelope) => {
                self.hub.publish(envelope);
                SocketWork::Nothing
            },
            Action::Write(line) => SocketWork::Write(line),
            Action::Close(farewell) => {
                match farewell {
                    Some(envelope) => {
                        self.hub.publish(envelope);
                    },
                    None => {},
                }
                self.hub.unsubscribe(handle);
                SocketWork::Release
            },
        }
    }
    /// Answers one event of a connection at the time `now`: its session
    /// decides, the hub's part of the decision is carried out, and what is
    /// left for the socket is handed back.
    pub fn handle(&mut self, connection: &mut Connection, event: Inbound, now: &str) -> (work:
        SocketWork)
        requires
            old(self)@.wf(),
        ensures
            final(self)@.wf(),
            final(connection).handle == old(connection).handle,
            final(connection).session@ == old(connection).session@.after(event@),
            answers(
                old(self)@,
                old(connection).session@,
                old(connection).handle.slot as int,
                event@,
                now@,
                final(self)@,
                work@,
            ),
    {
        let action = connection.session.react(event, now);
        self.carry_out(&connection.handle, action)
    }

    /// Answers one event of a connection at the local time of this call.
    pub fn handle_now(&mut self, connection: &mut Connection, event: Inbound) -> (work:
        SocketWork)
        requires
            old(self)@.wf(),
        ensures
            final(self)@.wf(),
            final(connection).handle == old(connection).handle,
            final(connection).session@ == old(connection).session@.after(event@),
            exists|now: Seq<char>|
                is_clock_text(now) && #[trigger] answers(
                    old(self)@,
                    old(connection).session@,
                    old(connection).handle.slot as int,
                    event@,
                    now,
                    final(self)@,
                    work@,
                ),
    {
        let now = local_time_text();
        self.handle(connection, event, now.as_str())
    }
}

/// Whether `after` and `work` are the relay and the socket's work once the
/// session `session`, subscribed at `slot`, has answered `event` at `now`.
pub open spec fn answers(
    before: RelayView,
    session: SessionView,
    slot: int,
    event: InboundView,
    now: Seq<char>,
    after: RelayView,
    work: SocketWorkView,
) -> bool {
    let action = session.action(event, now, encoded_of(event));
    after == before.carried_out(slot, action) && work == socket_work(action)
}

} // verus!
