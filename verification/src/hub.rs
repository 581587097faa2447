//! The hub: one topic that every session publishes to and reads from.
//!
//! The hub keeps the most recent envelopes, up to its capacity, and one
//! cursor for each subscriber. Publishing never waits for a reader: when the
//! window is full the oldest envelope leaves it, and a subscriber that had
//! not read that envelope is cut off and told so at its next read.
//!
//! Three choices are made here on purpose. The window holds exactly as many
//! envelopes as the capacity says, not the next power of two. An envelope is
//! accepted whether or not anybody is subscribed. A subscriber that was cut
//! off stays cut off until it gives up its subscription: it is not told how
//! many envelopes it missed and does not go on reading.
//!
//! The hub is a sequential value. Sessions that run at the same time share
//! it behind a lock, and every law below is stated over the order in which
//! their operations took the lock.

use crate::envelope::{Envelope, EnvelopeView};
use vstd::prelude::*;

verus! {

/// The capacity of the relay's hub unless another is asked for.
pub const DEFAULT_CAPACITY: usize = 100;

/// Where one subscriber stands in the stream.
#[derive(Clone, Copy, Debug, PartialEq, Eq, Structural)]
pub enum Cursor {
    /// No subscriber holds this slot.
    Vacant,
    /// The subscriber will read the envelope at this place of the window next.
    At(usize),
    /// The subscriber fell behind the window and is cut off.
    Overflowed,
}

/// A subscriber's private handle on the hub.
#[derive(Clone, Copy, Debug, PartialEq, Eq, Structural)]
pub struct SubscriberHandle {
    pub slot: usize,
}

/// What a subscriber gets when it asks for the next envelope.
#[derive(Clone, Debug, PartialEq, Eq)]
pub enum Next {
    /// The next envelope, in the order of publication.
    Envelope(Envelope),
    /// Nothing is waiting: the subscriber would suspend here.
    Pending,
    /// Envelopes were dropped before this subscriber read them.
    Overflowed,
    /// The hub has shut down and nothing is left to read.
    Closed,
    /// The handle is not subscribed.
    Unsubscribed,
}

/// The mathematical value of a [`Next`].
pub enum NextView {
    Envelope(EnvelopeView),
    Pending,
    Overflowed,
    Closed,
    Unsubscribed,
}

impl View for Next {
    type V = NextView;

    open spec fn view(&self) -> NextView {
        match self {
            Next::Envelope(envelope) => NextView::Envelope(envelope@),
            Next::Pending => NextView::Pending,
            Next::Overflowed => NextView::Overflowed,
            Next::Closed => NextView::Closed,
            Next::Unsubscribed => NextView::Unsubscribed,
        }
    }
}

/// The place of the first vacant slot, or the number of slots if none is.
pub open spec fn first_vacant(cursors: Seq<Cursor>) -> int
    decreases cursors.len(),
{
    if cursors.len() == 0 {
        0
    } else if cursors[0] is Vacant {
        0
    } else {
        1 + first_vacant(cursors.drop_first())
    }
}

/// A cursor after the oldest envelope has left the window.
pub open spec fn shifted(cursor: Cursor) -> Cursor {
    match cursor {
        Cursor::At(place) => if place == 0 {
            Cursor::Overflowed
        } else {
            Cursor::At((place - 1) as usize)
        },
        other => other,
    }
}

/// The mathematical value of a [`Hub`].
pub struct HubView {
    /// How many envelopes the window holds at most.
    pub capacity: nat,
    /// The envelopes that can still be read, oldest first.
    pub window: Seq<EnvelopeView>,
    /// One cursor for each slot.
    pub cursors: Seq<Cursor>,
    /// Whether the hub still accepts envelopes.
    pub open: bool,
}

impl HubView {
    /// The window respects the capacity and every cursor lies within it.
    pub open spec fn wf(self) -> bool {
        &&& 1 <= self.capacity <= usize::MAX
        &&& self.window.len() <= self.capacity
        &&& forall|slot: int|
            0 <= slot < self.cursors.len() ==> ((#[trigger] self.cursors[slot]) matches Cursor::At(
                place,
            ) ==> place <= self.window.len())
    }

    /// An open hub without envelopes or subscribers.
    pub open spec fn empty(capacity: nat) -> HubView {
        HubView { capacity, window: Seq::empty(), cursors: Seq::empty(), open: true }
    }

    /// Whether `slot` belongs to a subscriber that has not been cut off.
    pub open spec fn live(self, slot: int) -> bool {
        0 <= slot < self.cursors.len() && self.cursors[slot] is At
    }

    /// The envelopes that the subscriber at `slot` has yet to read, oldest
    /// first; none where the slot is vacant or cut off.
    pub open spec fn pending(self, slot: int) -> Seq<EnvelopeView> {
        if self.live(slot) {
            self.window.skip(self.cursors[slot]->At_0 as int)
        } else {
            Seq::empty()
        }
    }

    /// The slot that the next subscriber gets.
    pub open spec fn next_slot(self) -> int {
        first_vacant(self.cursors)
    }

    /// The hub after one more subscriber has joined at the end of the window.
    pub open spec fn subscribed(self) -> HubView {
        let cursor = Cursor::At(self.window.len() as usize);
        let slot = self.next_slot();
        HubView {
            cursors: if slot < self.cursors.len() {
                self.cursors.update(slot, cursor)
            } else {
                self.cursors.push(cursor)
            },
            ..self
        }
    }

    /// The hub after the subscriber at `slot` has left.
    pub open spec fn unsubscribed(self, slot: int) -> HubView {
        if 0 <= slot < self.cursors.len() {
            HubView { cursors: self.cursors.update(slot, Cursor::Vacant), ..self }
        } else {
            self
        }
    }

    /// The hub after `envelope` has been published.
    pub open spec fn published(self, envelope: EnvelopeView) -> HubView {
        if !self.open {
            self
        } else if self.window.len() < self.capacity {
            HubView { window: self.window.push(envelope), ..self }
        } else {
            HubView {
                window: self.window.drop_first().push(envelope),
                cursors: self.cursors.map_values(|cursor: Cursor| shifted(cursor)),
                ..self
            }
        }
    }

    /// What the subscriber at `slot` gets when it asks for the next envelope.
    pub open spec fn delivery(self, slot: int) -> NextView {
        if !(0 <= slot < self.cursors.len()) {
            NextView::Unsubscribed
        } else {
            match self.cursors[slot] {
                Cursor::Vacant => NextView::Unsubscribed,
                Cursor::Overflowed => NextView::Overflowed,
                Cursor::At(place) => if place < self.window.len() {
                    NextView::Envelope(self.window[place as int])
                } else if self.open {
                    NextView::Pending
                } else {
                    NextView::Closed
                },
            }
        }
    }

    /// The hub after the subscriber at `slot` has asked for the next envelope.
    pub open spec fn advanced(self, slot: int) -> HubView {
        if self.delivery(slot) is Envelope {
            HubView {
                cursors: self.cursors.update(
                    slot,
                    Cursor::At((self.cursors[slot]->At_0 + 1) as usize),
                ),
                ..self
            }
        } else {
            self
        }
    }

    /// The hub after it has shut down.
    pub open spec fn shut(self) -> HubView {
        HubView { open: false, ..self }
    }
}

fn is_vacant(cursor: Cursor) -> (vacant: bool)
    ensures
        vacant == (cursor is Vacant),
{
    match cursor {
        Cursor::Vacant => true,
        _ => false,
    }
}

/// The views of the envelopes of a window.
pub open spec fn window_view(window: Seq<Envelope>) -> Seq<EnvelopeView> {
    window.map_values(|envelope: Envelope| envelope@)
}

/// The relay's single broadcast point.
pub struct Hub {
    capacity: usize,
    window: Vec<Envelope>,
    cursors: Vec<Cursor>,
    open: bool,
}

impl View for Hub {
    type V = HubView;

    closed spec fn view(&self) -> HubView {
        HubView {
            capacity: self.capacity as nat,
            window: window_view(self.window@),
            cursors: self.cursors@,
            open: self.open,
        }
    }
}

impl Hub {
    /// An open hub that keeps `capacity` envelopes.
    pub fn with_capacity(capacity: usize) -> (hub: Hub)
        requires
            capacity >= 1,
        ensures
            hub@ == HubView::empty(capacity as nat),
            hub@.wf(),
    {
        let hub = Hub { capacity, window: Vec::new(), cursors: Vec::new(), open: true };
        proof {
            assert(window_view(hub.window@) == Seq::<EnvelopeView>::empty());
        }
        hub
    }

    /// An open hub of the default capacity.
    pub fn new() -> (hub: Hub)
        ensures
            hub@ == HubView::empty(DEFAULT_CAPACITY as nat),
            hub@.wf(),
    {
        Hub::with_capacity(DEFAULT_CAPACITY)
    }

    /// How many envelopes the window holds at most.
    pub fn capacity(&self) -> (capacity: usize)
        ensures
            capacity == self@.capacity,
    {
        self.capacity
    }

    /// How many envelopes the window holds now.
    pub fn retained(&self) -> (count: usize)
        requires
            self@.wf(),
        ensures
            count == self@.window.len(),
            count <= self@.capacity,
    {
        self.window.len()
    }

    /// Whether the hub still accepts envelopes.
    pub fn is_open(&self) -> (open: bool)
        ensures
            open == self@.open,
    {
        self.open
    }

    /// How many envelopes wait for the subscriber; `None` where the handle
    /// is not subscribed or the subscriber is cut off.
    pub fn backlog(&self, handle: &SubscriberHandle) -> (count: Option<usize>)
        requires
            self@.wf(),
        ensures
            match count {
                Some(n) => self@.live(handle.slot as int) && n == self@.pending(
                    handle.slot as int,
                ).len(),
                None => !self@.live(handle.slot as int),
            },
    {
        if handle.slot >= self.cursors.len() {
            return None;
        }
        match self.cursors[handle.slot] {
            Cursor::At(place) => Some(self.window.len() - place),
            _ => None,
        }
    }

    /// Registers a subscriber. It will be handed every envelope published
    /// from now on, and none published before.
    pub fn subscribe(&mut self) -> (handle: SubscriberHandle)
        requires
            old(self)@.wf(),
        ensures
            final(self)@.wf(),
            final(self)@ == old(self)@.subscribed(),
            handle.slot == old(self)@.next_slot(),
            final(self)@.live(handle.slot as int),
            final(self)@.pending(handle.slot as int) == Seq::<EnvelopeView>::empty(),
    {
        let cursor = Cursor::At(self.window.len());
        let mut slot: usize = 0;
        proof {
            assert(self.cursors@.skip(0) == self.cursors@);
        }
        while slot < self.cursors.len() && !is_vacant(self.cursors[slot])
            invariant
                slot <= self.cursors.len(),
                first_vacant(self.cursors@) == slot + first_vacant(self.cursors@.skip(slot as int)),
            decreases self.cursors.len() - slot,
        {
            proof {
                let rest = self.cursors@.skip(slot as int);
                assert(rest[0] == self.cursors@[slot as int]);
                assert(rest.drop_first() == self.cursors@.skip(slot + 1));
            }
            slot += 1;
        }
        proof {
            let rest = self.cursors@.skip(slot as int);
            if slot < self.cursors.len() {
                assert(rest[0] == self.cursors@[slot as int]);
            }
            assert(first_vacant(rest) == 0);
        }
        if slot < self.cursors.len() {
            self.cursors.set(slot, cursor);
        } else {
            self.cursors.push(cursor);
        }
        proof {
            assert(final(self)@.pending(slot as int) == Seq::<EnvelopeView>::empty());
        }
        SubscriberHandle { slot }
    }

    /// Releases a subscription. A handle that is not subscribed is ignored.
    pub fn unsubscribe(&mut self, handle: &SubscriberHandle)
        requires
            old(self)@.wf(),
        ensures
            final(self)@.wf(),
            final(self)@ == old(self)@.unsubscribed(handle.slot as int),
    {
        if handle.slot < self.cursors.len() {
            self.cursors.set(handle.slot, Cursor::Vacant);
        }
    }

    /// Shuts the hub down: it accepts no further envelope, and a subscriber
    /// that has read what was waiting is told so.
    pub fn shut_down(&mut self)
        requires
            old(self)@.wf(),
        ensures
            final(self)@.wf(),
            final(self)@ == old(self)@.shut(),
    {
        self.open = false;
    }

    /// Publishes `envelope` to every subscriber, without waiting for any of
    /// them. Returns whether the hub accepted it, that is, whether it is open.
    pub fn publish(&mut self, envelope: Envelope) -> (accepted: bool)
        requires
            old(self)@.wf(),
        ensures
            final(self)@.wf(),
            final(self)@ == old(self)@.published(envelope@),
            accepted == old(self)@.open,
    {
        if !self.open {
            return false;
        }
        if self.window.len() >= self.capacity {
            let mut moved: Vec<Cursor> = Vec::new();
            let mut i: usize = 0;
            while i < self.cursors.len()
                invariant
                    i <= self.cursors.len(),
                    moved@.len() == i,
                    forall|k: int| 0 <= k < i ==> moved@[k] == shifted(#[trigger] self.cursors@[k]),
                decreases self.cursors.len() - i,
            {
                let next = match self.cursors[i] {
                    Cursor::At(place) => if place == 0 {
                        Cursor::Overflowed
                    } else {
                        Cursor::At(place - 1)
                    },
                    other => other,
                };
                moved.push(next);
                i += 1;
            }
            proof {
                assert(moved@ == self.cursors@.map_values(|cursor: Cursor| shifted(cursor)));
            }
            self.cursors = moved;
            self.window.remove(0);
            proof {
                assert(window_view(self.window@) == window_view(old(self).window@).drop_first());
            }
        }
        let ghost before = window_view(self.window@);
        self.window.push(envelope);
        proof {
            assert(window_view(self.window@) == before.push(envelope@));
        }
        true
    }

    /// Hands the subscriber its next envelope, in the order of publication,
    /// or says why there is none.
    pub fn next(&mut self, handle: &SubscriberHandle) -> (next: Next)
        requires
            old(self)@.wf(),
        ensures
            final(self)@.wf(),
            next@ == old(self)@.delivery(handle.slot as int),
            final(self)@ == old(self)@.advanced(handle.slot as int),
    {
        let slot = handle.slot;
        if slot >= self.cursors.len() {
            return Next::Unsubscribed;
        }
        match self.cursors[slot] {
            Cursor::Vacant => Next::Unsubscribed,
            Cursor::Overflowed => Next::Overflowed,
            Cursor::At(place) => {
                if place < self.window.len() {
                    let envelope = self.window[place].duplicate();
                    self.cursors.set(slot, Cursor::At(place + 1));
                    Next::Envelope(envelope)
                } else if self.open {
                    Next::Pending
                } else {
                    Next::Closed
                }
            },
        }
    }
}

/// One operation on the hub, by any of its sessions.
pub enum Op {
    /// A session publishes an envelope.
    Publish(EnvelopeView),
    /// The subscriber at a slot asks for its next envelope.
    Read(int),
    /// A new subscriber joins.
    Subscribe,
    /// The subscriber at a slot leaves.
    Unsubscribe(int),
    /// The hub shuts down.
    ShutDown,
}

impl HubView {
    /// The hub after `op`.
    pub open spec fn apply(self, op: Op) -> HubView {
        match op {
            Op::Publish(envelope) => self.published(envelope),
            Op::Read(slot) => self.advanced(slot),
            Op::Subscribe => self.subscribed(),
            Op::Unsubscribe(slot) => self.unsubscribed(slot),
            Op::ShutDown => self.shut(),
        }
    }

    /// The hub after all of `ops`, in order.
    pub open spec fn apply_all(self, ops: Seq<Op>) -> HubView
        decreases ops.len(),
    {
        if ops.len() == 0 {
            self
        } else {
            self.apply(ops[0]).apply_all(ops.drop_first())
        }
    }

    /// The envelopes that the hub accepts over `ops`, in order.
    pub open spec fn accepted(self, ops: Seq<Op>) -> Seq<EnvelopeView>
        decreases ops.len(),
    {
        if ops.len() == 0 {
            Seq::empty()
        } else {
            let later = self.apply(ops[0]).accepted(ops.drop_first());
            match ops[0] {
                Op::Publish(envelope) => if self.open {
                    seq![envelope] + later
                } else {
                    later
                },
                _ => later,
            }
        }
    }

    /// The envelopes that are handed to the subscriber at `slot` over `ops`,
    /// in order.
    pub open spec fn received(self, ops: Seq<Op>, slot: int) -> Seq<EnvelopeView>
        decreases ops.len(),
    {
        if ops.len() == 0 {
            Seq::empty()
        } else {
            let later = self.apply(ops[0]).received(ops.drop_first(), slot);
            if ops[0] == Op::Read(slot) && self.delivery(slot) is Envelope {
                seq![self.delivery(slot)->Envelope_0] + later
            } else {
                later
            }
        }
    }
}

/// `ops` without the reads of the subscriber at `slot`.
pub open spec fn without_reads(ops: Seq<Op>, slot: int) -> Seq<Op>
    decreases ops.len(),
{
    if ops.len() == 0 {
        ops
    } else if ops[0] == Op::Read(slot) {
        without_reads(ops.drop_first(), slot)
    } else {
        seq![ops[0]] + without_reads(ops.drop_first(), slot)
    }
}

/// The first vacant slot is vacant, and no slot before it is.
pub proof fn lemma_first_vacant(cursors: Seq<Cursor>)
    ensures
        0 <= first_vacant(cursors) <= cursors.len(),
        first_vacant(cursors) < cursors.len() ==> cursors[first_vacant(cursors)] is Vacant,
        forall|slot: int| 0 <= slot < first_vacant(cursors) ==> !(#[trigger] cursors[slot] is Vacant),
    decreases cursors.len(),
{
    if cursors.len() > 0 && !(cursors[0] is Vacant) {
        let rest = cursors.drop_first();
        lemma_first_vacant(rest);
        assert forall|slot: int| 0 <= slot < first_vacant(cursors) implies !(
        #[trigger] cursors[slot] is Vacant) by {
            if slot > 0 {
                assert(rest[slot - 1] == cursors[slot]);
            }
        }
        if first_vacant(cursors) < cursors.len() {
            assert(rest[first_vacant(rest)] == cursors[first_vacant(cursors)]);
        }
    }
}

/// Every operation keeps the hub well formed.
pub proof fn lemma_apply_keeps_wf(hub: HubView, op: Op)
    requires
        hub.wf(),
    ensures
        hub.apply(op).wf(),
        hub.apply(op).capacity == hub.capacity,
        hub.apply(op).cursors.len() >= hub.cursors.len(),
{
    lemma_first_vacant(hub.cursors);
    let after = hub.apply(op);
    assert forall|slot: int| 0 <= slot < after.cursors.len() implies ((
    #[trigger] after.cursors[slot]) matches Cursor::At(place) ==> place <= after.window.len()) by {
        if slot < hub.cursors.len() {
            assert(hub.cursors[slot] matches Cursor::At(place) ==> place <= hub.window.len());
        }
    }
}

/// Every history keeps the hub well formed, and so within its capacity.
pub proof fn lemma_apply_all_keeps_wf(hub: HubView, ops: Seq<Op>)
    requires
        hub.wf(),
    ensures
        hub.apply_all(ops).wf(),
        hub.apply_all(ops).capacity == hub.capacity,
        hub.apply_all(ops).cursors.len() >= hub.cursors.len(),
    decreases ops.len(),
{
    if ops.len() > 0 {
        lemma_apply_keeps_wf(hub, ops[0]);
        lemma_apply_all_keeps_wf(hub.apply(ops[0]), ops.drop_first());
    }
}

/// A slot that is held stays held, and one that is cut off stays cut off,
/// until its subscriber leaves.
pub proof fn lemma_slot_is_kept(hub: HubView, op: Op, slot: int)
    requires
        hub.wf(),
        0 <= slot < hub.cursors.len(),
        !(hub.cursors[slot] is Vacant),
        op != Op::Unsubscribe(slot),
    ensures
        0 <= slot < hub.apply(op).cursors.len(),
        !(hub.apply(op).cursors[slot] is Vacant),
        hub.cursors[slot] is Overflowed ==> hub.apply(op).cursors[slot] is Overflowed,
{
    lemma_first_vacant(hub.cursors);
}

/// A subscriber that was cut off is not live again while it stays subscribed.
pub proof fn lemma_cut_off_is_final(hub: HubView, ops: Seq<Op>, slot: int)
    requires
        hub.wf(),
        0 <= slot < hub.cursors.len(),
        hub.cursors[slot] is Overflowed,
        forall|i: int| 0 <= i < ops.len() ==> #[trigger] ops[i] != Op::Unsubscribe(slot),
    ensures
        !hub.apply_all(ops).live(slot),
    decreases ops.len(),
{
    if ops.len() > 0 {
        let rest = ops.drop_first();
        lemma_apply_keeps_wf(hub, ops[0]);
        lemma_slot_is_kept(hub, ops[0], slot);
        assert forall|i: int| 0 <= i < rest.len() implies #[trigger] rest[i] != Op::Unsubscribe(
            slot,
        ) by {
            assert(rest[i] == ops[i + 1]);
        }
        lemma_cut_off_is_final(hub.apply(ops[0]), rest, slot);
    }
}

/// What one operation does to what waits for a live subscriber that is
/// still live afterwards.
pub proof fn lemma_step_of_stream(hub: HubView, op: Op, slot: int)
    requires
        hub.wf(),
        hub.live(slot),
        op != Op::Unsubscribe(slot),
        hub.apply(op).live(slot),
    ensures
        hub.received(seq![op], slot) + hub.apply(op).pending(slot) == hub.pending(slot)
            + hub.accepted(seq![op]),
{
    lemma_first_vacant(hub.cursors);
    let after = hub.apply(op);
    let one = seq![op];
    assert(one[0] == op);
    assert(one.drop_first() == Seq::<Op>::empty());
    assert(after.received(one.drop_first(), slot) == Seq::<EnvelopeView>::empty());
    assert(after.accepted(one.drop_first()) == Seq::<EnvelopeView>::empty());
    let place = hub.cursors[slot]->At_0 as int;
    match op {
        Op::Publish(envelope) => {
            if hub.open {
                if hub.window.len() < hub.capacity {
                    assert(hub.window.push(envelope).skip(place) == hub.window.skip(place).push(
                        envelope,
                    ));
                } else {
                    assert(place > 0);
                    assert(hub.window.drop_first().push(envelope).skip(place - 1)
                        == hub.window.skip(place).push(envelope));
                }
                assert(after.pending(slot) == hub.pending(slot) + seq![envelope]);
                assert(hub.accepted(one) == seq![envelope]);
                assert(hub.received(one, slot) == Seq::<EnvelopeView>::empty());
                assert(hub.received(one, slot) + after.pending(slot) == after.pending(slot));
            } else {
                assert(hub.received(one, slot) + after.pending(slot) == hub.pending(slot)
                    + hub.accepted(one));
            }
        },
        Op::Read(reader) => {
            if reader == slot && hub.delivery(slot) is Envelope {
                assert(hub.received(one, slot) == seq![hub.window[place]]);
                assert(seq![hub.window[place]] + hub.window.skip(place + 1) == hub.window.skip(
                    place,
                ));
                assert(hub.accepted(one) == Seq::<EnvelopeView>::empty());
                assert(hub.pending(slot) + hub.accepted(one) == hub.pending(slot));
            } else {
                assert(after.pending(slot) == hub.pending(slot));
                assert(hub.received(one, slot) + after.pending(slot) == hub.pending(slot)
                    + hub.accepted(one));
            }
        },
        _ => {
            assert(after.pending(slot) == hub.pending(slot));
            assert(hub.received(one, slot) + after.pending(slot) == hub.pending(slot)
                + hub.accepted(one));
        },
    }
}

/// Over any history, a subscriber that stays subscribed and is not cut off
/// has been handed, or has waiting, what waited for it at the start and
/// then every envelope that the hub accepted, in the order of publication.
pub proof fn lemma_stream_is_kept(hub: HubView, ops: Seq<Op>, slot: int)
    requires
        hub.wf(),
        hub.live(slot),
        forall|i: int| 0 <= i < ops.len() ==> #[trigger] ops[i] != Op::Unsubscribe(slot),
        hub.apply_all(ops).live(slot),
    ensures
        hub.received(ops, slot) + hub.apply_all(ops).pending(slot) == hub.pending(slot)
            + hub.accepted(ops),
    decreases ops.len(),
{
    if ops.len() == 0 {
        assert(hub.received(ops, slot) + hub.pending(slot) == hub.pending(slot));
        assert(hub.pending(slot) + hub.accepted(ops) == hub.pending(slot));
    } else {
        let op = ops[0];
        let rest = ops.drop_first();
        let after = hub.apply(op);
        lemma_apply_keeps_wf(hub, op);
        lemma_slot_is_kept(hub, op, slot);
        assert forall|i: int| 0 <= i < rest.len() implies #[trigger] rest[i] != Op::Unsubscribe(
            slot,
        ) by {
            assert(rest[i] == ops[i + 1]);
        }
        if after.cursors[slot] is Overflowed {
            lemma_cut_off_is_final(after, rest, slot);
        }
        lemma_step_of_stream(hub, op, slot);
        lemma_stream_is_kept(after, rest, slot);
        let one = seq![op];
        assert(one[0] == op);
        assert(one.drop_first() == Seq::<Op>::empty());
        let r0 = hub.received(one, slot);
        let a0 = hub.accepted(one);
        assert(after.received(one.drop_first(), slot) == Seq::<EnvelopeView>::empty());
        assert(after.accepted(one.drop_first()) == Seq::<EnvelopeView>::empty());
        assert(hub.received(ops, slot) == r0 + after.received(rest, slot));
        assert(hub.accepted(ops) == a0 + after.accepted(rest));
        let last = hub.apply_all(ops);
        assert(last == after.apply_all(rest));
        // r0 + after.pending == hub.pending + a0, and
        // after.received(rest) + last.pending == after.pending + after.accepted(rest)
        assert((r0 + after.received(rest, slot)) + last.pending(slot) == r0 + (after.received(
            rest,
            slot,
        ) + last.pending(slot)));
        assert(r0 + (after.pending(slot) + after.accepted(rest)) == (r0 + after.pending(slot))
            + after.accepted(rest));
        assert((hub.pending(slot) + a0) + after.accepted(rest) == hub.pending(slot) + (a0
            + after.accepted(rest)));
    }
}

/// Delivery in the order of publication: over any history of the hub's
/// sessions, a subscriber that stays subscribed and is not cut off has been
/// handed, or has waiting, exactly the envelopes that the hub accepted after
/// it subscribed, in the order in which they were published. Once nothing
/// waits for it, it has been handed them all.
pub proof fn law_delivery_in_publish_order(hub: HubView, ops: Seq<Op>)
    requires
        hub.wf(),
        forall|i: int| 0 <= i < ops.len() ==> #[trigger] ops[i] != Op::Unsubscribe(hub.next_slot()),
        hub.subscribed().apply_all(ops).live(hub.next_slot()),
    ensures
        hub.subscribed().received(ops, hub.next_slot()) + hub.subscribed().apply_all(ops).pending(
            hub.next_slot(),
        ) == hub.subscribed().accepted(ops),
        hub.subscribed().apply_all(ops).pending(hub.next_slot()).len() == 0
            ==> hub.subscribed().received(ops, hub.next_slot()) == hub.subscribed().accepted(ops),
{
    let slot = hub.next_slot();
    let start = hub.subscribed();
    lemma_first_vacant(hub.cursors);
    lemma_apply_keeps_wf(hub, Op::Subscribe);
    assert(start.live(slot));
    assert(start.pending(slot) == Seq::<EnvelopeView>::empty());
    lemma_stream_is_kept(start, ops, slot);
    assert(start.pending(slot) + start.accepted(ops) == start.accepted(ops));
    let last = start.apply_all(ops);
    if last.pending(slot).len() == 0 {
        assert(start.received(ops, slot) + last.pending(slot) == start.received(ops, slot));
    }
}

/// A live subscriber with envelopes waiting is handed the oldest of them
/// next, and the others go on waiting.
pub proof fn law_next_hands_oldest(hub: HubView, slot: int)
    requires
        hub.wf(),
        hub.live(slot),
        hub.pending(slot).len() > 0,
    ensures
        hub.delivery(slot) == NextView::Envelope(hub.pending(slot)[0]),
        hub.advanced(slot).pending(slot) == hub.pending(slot).drop_first(),
        hub.advanced(slot).live(slot),
{
    let place = hub.cursors[slot]->At_0 as int;
    assert(hub.window.skip(place + 1) == hub.window.skip(place).drop_first());
}

/// Two hubs that differ at most in how far the subscriber at `slot` has
/// read, or in whether it was cut off.
pub open spec fn alike_but(left: HubView, right: HubView, slot: int) -> bool {
    &&& left.capacity == right.capacity
    &&& left.window == right.window
    &&& left.open == right.open
    &&& left.cursors.len() == right.cursors.len()
    &&& forall|other: int|
        0 <= other < left.cursors.len() ==> (#[trigger] left.cursors[other] is Vacant
            <==> right.cursors[other] is Vacant)
    &&& forall|other: int|
        0 <= other < left.cursors.len() && other != slot ==> #[trigger] left.cursors[other]
            == right.cursors[other]
}

proof fn lemma_same_first_vacant(left: Seq<Cursor>, right: Seq<Cursor>)
    requires
        left.len() == right.len(),
        forall|slot: int|
            0 <= slot < left.len() ==> (#[trigger] left[slot] is Vacant <==> right[slot] is Vacant),
    ensures
        first_vacant(left) == first_vacant(right),
    decreases left.len(),
{
    if left.len() > 0 {
        assert(left[0] is Vacant <==> right[0] is Vacant);
        if !(left[0] is Vacant) {
            let l = left.drop_first();
            let r = right.drop_first();
            assert forall|slot: int| 0 <= slot < l.len() implies (#[trigger] l[slot] is Vacant
                <==> r[slot] is Vacant) by {
                assert(l[slot] == left[slot + 1]);
                assert(r[slot] == right[slot + 1]);
                assert(left[slot + 1] is Vacant <==> right[slot + 1] is Vacant);
            }
            lemma_same_first_vacant(l, r);
        }
    }
}

proof fn lemma_alike_after(left: HubView, right: HubView, op: Op, slot: int)
    requires
        alike_but(left, right, slot),
        op != Op::Read(slot),
    ensures
        alike_but(left.apply(op), right.apply(op), slot),
{
    lemma_same_first_vacant(left.cursors, right.cursors);
    lemma_first_vacant(left.cursors);
    lemma_first_vacant(right.cursors);
    let l = left.apply(op);
    let r = right.apply(op);
    assert(l.cursors.len() == r.cursors.len());
    assert forall|other: int| 0 <= other < l.cursors.len() implies (#[trigger] l.cursors[other] is Vacant
        <==> r.cursors[other] is Vacant) by {
        if other < left.cursors.len() {
            assert(left.cursors[other] is Vacant <==> right.cursors[other] is Vacant);
        }
    }
    assert forall|other: int|
        0 <= other < l.cursors.len() && other != slot implies #[trigger] l.cursors[other]
        == r.cursors[other] by {
        if other < left.cursors.len() {
            assert(left.cursors[other] == right.cursors[other]);
        }
    }
}

proof fn lemma_alike_after_read(left: HubView, right: HubView, slot: int)
    requires
        alike_but(left, right, slot),
    ensures
        alike_but(left.advanced(slot), right, slot),
{
    let l = left.advanced(slot);
    assert forall|other: int| 0 <= other < l.cursors.len() implies (#[trigger] l.cursors[other] is Vacant
        <==> right.cursors[other] is Vacant) by {
        assert(left.cursors[other] is Vacant <==> right.cursors[other] is Vacant);
    }
    assert forall|other: int|
        0 <= other < l.cursors.len() && other != slot implies #[trigger] l.cursors[other]
        == right.cursors[other] by {
        assert(left.cursors[other] == right.cursors[other]);
    }
}

proof fn lemma_reads_do_not_matter(
    left: HubView,
    right: HubView,
    ops: Seq<Op>,
    stalled: int,
    other: int,
)
    requires
        alike_but(left, right, stalled),
        stalled != other,
    ensures
        left.received(ops, other) == right.received(without_reads(ops, stalled), other),
        alike_but(left.apply_all(ops), right.apply_all(without_reads(ops, stalled)), stalled),
    decreases ops.len(),
{
    if ops.len() > 0 {
        let op = ops[0];
        let rest = ops.drop_first();
        if op == Op::Read(stalled) {
            lemma_alike_after_read(left, right, stalled);
            lemma_reads_do_not_matter(left.advanced(stalled), right, rest, stalled, other);
        } else {
            lemma_alike_after(left, right, op, stalled);
            lemma_reads_do_not_matter(left.apply(op), right.apply(op), rest, stalled, other);
            let kept = without_reads(ops, stalled);
            assert(kept[0] == op);
            assert(kept.drop_first() == without_reads(rest, stalled));
            if 0 <= other < left.cursors.len() {
                assert(left.cursors[other] == right.cursors[other]);
            }
            assert(left.delivery(other) == right.delivery(other));
        }
    }
}

/// A reader that stalls blocks nobody: what any other subscriber is handed
/// over a history is what it would be handed if the stalled subscriber had
/// never read at all, and the envelopes that the hub keeps for its readers
/// are the same and never more than its capacity.
pub proof fn law_stalled_reader_blocks_nobody(hub: HubView, ops: Seq<Op>, stalled: int, other: int)
    requires
        hub.wf(),
        stalled != other,
    ensures
        hub.received(ops, other) == hub.received(without_reads(ops, stalled), other),
        hub.apply_all(ops).window == hub.apply_all(without_reads(ops, stalled)).window,
        hub.apply_all(without_reads(ops, stalled)).window.len() <= hub.capacity,
{
    lemma_reads_do_not_matter(hub, hub, ops, stalled, other);
    lemma_apply_all_keeps_wf(hub, without_reads(ops, stalled));
}

/// Publishing never waits and never fails on a reader's account: an open
/// hub takes every envelope as the newest of its window, wherever its
/// subscribers stand, and a subscriber with less than a full window waiting
/// keeps all that waited and gets the envelope after it.
pub proof fn law_publish_never_waits(hub: HubView, envelope: EnvelopeView, slot: int)
    requires
        hub.wf(),
        hub.open,
    ensures
        hub.published(envelope).window.len() > 0,
        hub.published(envelope).window.last() == envelope,
        hub.live(slot) && hub.pending(slot).len() < hub.capacity ==> hub.published(envelope).live(
            slot,
        ) && hub.published(envelope).pending(slot) == hub.pending(slot).push(envelope),
        hub.live(slot) && hub.pending(slot).len() == hub.capacity ==> hub.published(
            envelope,
        ).cursors[slot] is Overflowed,
{
    if hub.live(slot) {
        let place = hub.cursors[slot]->At_0 as int;
        if hub.window.len() < hub.capacity {
            assert(hub.window.push(envelope).skip(place) == hub.window.skip(place).push(envelope));
        } else if place > 0 {
            assert(hub.window.drop_first().push(envelope).skip(place - 1) == hub.window.skip(
                place,
            ).push(envelope));
        }
    }
}

/// Absent overflow nobody is cut off: a subscriber stays live over any
/// history in which it stays subscribed and in which what waits for it at
/// the start, together with what the hub accepts, fits the capacity.
pub proof fn law_within_capacity_nobody_is_cut_off(hub: HubView, ops: Seq<Op>, slot: int)
    requires
        hub.wf(),
        hub.live(slot),
        forall|i: int| 0 <= i < ops.len() ==> #[trigger] ops[i] != Op::Unsubscribe(slot),
        hub.pending(slot).len() + hub.accepted(ops).len() <= hub.capacity,
    ensures
        hub.apply_all(ops).live(slot),
    decreases ops.len(),
{
    if ops.len() > 0 {
        let op = ops[0];
        let rest = ops.drop_first();
        let after = hub.apply(op);
        lemma_apply_keeps_wf(hub, op);
        lemma_first_vacant(hub.cursors);
        assert forall|i: int| 0 <= i < rest.len() implies #[trigger] rest[i] != Op::Unsubscribe(
            slot,
        ) by {
            assert(rest[i] == ops[i + 1]);
        }
        match op {
            Op::Publish(envelope) => {
                if hub.open {
                    law_publish_never_waits(hub, envelope, slot);
                    assert(hub.accepted(ops) == seq![envelope] + after.accepted(rest));
                }
            },
            Op::Read(reader) => {
                if reader == slot && hub.delivery(slot) is Envelope {
                    law_next_hands_oldest(hub, slot);
                }
            },
            _ => {},
        }
        assert(after.live(slot));
        assert(after.pending(slot).len() + after.accepted(rest).len() <= after.capacity);
        law_within_capacity_nobody_is_cut_off(after, rest, slot);
    }
}

} // verus!
