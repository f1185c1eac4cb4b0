//! Broadcast channel: the fan-out primitive.
//!
//! One shared channel carries every room's traffic; each session holds its
//! own cursor into the publish log and filters received messages by its own
//! room membership before writing them out.  Publishes are totally ordered;
//! a consumer that does not lag sees every message in exactly that order.
//! Delivery is lossy and best-effort: a cursor that falls more than the
//! backlog bound behind skips forward to the oldest retained message,
//! losing the oldest unread ones.  A cursor subscribed after a publish
//! never sees that publish.

use vstd::prelude::*;

verus! {

/// A room-scoped message: immutable once constructed, duplicated for
/// fan-out to multiple recipients.
#[derive(Debug)]
pub struct RoomMessage {
    pub room_id: String,
    pub content: String,
}

impl RoomMessage {
    /// Builds a message addressed to `room_id` carrying `content`.
    pub fn new(room_id: String, content: String) -> (m: RoomMessage)
        ensures
            m.room_id@ == room_id@,
            m.content@ == content@,
    {
        RoomMessage { room_id, content }
    }

    /// An exact copy, for handing one message to many recipients.
    pub fn duplicate(&self) -> (m: RoomMessage)
        ensures
            m == *self,
    {
        RoomMessage { room_id: self.room_id.clone(), content: self.content.clone() }
    }
}

/// The shared broadcast channel: an append-only publish log with a backlog
/// bound.  Consumers read through a `Cursor`; entries more than `capacity`
/// behind the head are no longer readable.
pub struct BroadcastChannel {
    log: Vec<RoomMessage>,
    capacity: usize,
}

/// One consumer's independent read position in the publish log.
pub struct Cursor {
    pos: usize,
}

impl Cursor {
    /// The read position: the next message this consumer will observe.
    pub closed spec fn position(self) -> int {
        self.pos as int
    }
}

impl BroadcastChannel {
    /// Every message published so far, in publish order.
    pub closed spec fn log_view(self) -> Seq<RoomMessage> {
        self.log@
    }

    /// The backlog bound: how far a consumer may fall behind before it
    /// loses messages.
    pub closed spec fn bound(self) -> int {
        self.capacity as int
    }

    /// Structural invariant: the backlog bound is at least one.
    pub closed spec fn wf(self) -> bool {
        self.capacity >= 1
    }

    /// A fresh channel with backlog bound `capacity`.
    pub fn new(capacity: usize) -> (ch: BroadcastChannel)
        requires
            capacity >= 1,
        ensures
            ch.wf(),
            ch.log_view() == Seq::<RoomMessage>::empty(),
            ch.bound() == capacity,
    {
        BroadcastChannel { log: Vec::new(), capacity }
    }

    /// Publishes one message: a single write, appended to the global
    /// publish order, visible to every cursor at or before the new head.
    pub fn publish(&mut self, m: RoomMessage)
        requires
            old(self).wf(),
        ensures
            final(self).wf(),
            final(self).log_view() == old(self).log_view().push(m),
            final(self).bound() == old(self).bound(),
    {
        self.log.push(m);
    }

    /// Subscribes a new consumer.  Its cursor starts at the current head:
    /// it observes every later publish and none of the earlier ones.
    pub fn subscribe(&self) -> (c: Cursor)
        ensures
            c.position() == self.log_view().len(),
    {
        Cursor { pos: self.log.len() }
    }

    /// Takes the next message for cursor `c`, or nothing when the cursor
    /// is at the head.  A cursor that lags more than the backlog bound
    /// skips to the oldest retained message.  The message returned is the
    /// published one, unaltered, and the cursor advances just past it.
    pub fn recv_next(&self, c: &mut Cursor) -> (r: Option<RoomMessage>)
        requires
            self.wf(),
        ensures
            old(c).position() >= self.log_view().len() ==> r is None && final(c).position() == old(
                c,
            ).position(),
            old(c).position() < self.log_view().len() ==> {
                let start = if old(c).position() >= self.log_view().len() - self.bound() {
                    old(c).position()
                } else {
                    self.log_view().len() - self.bound()
                };
                r == Some(self.log_view()[start]) && final(c).position() == start + 1
            },
    {
        if c.pos >= self.log.len() {
            None
        } else {
            let oldest: usize = if self.log.len() > self.capacity {
                self.log.len() - self.capacity
            } else {
                0
            };
            let start: usize = if c.pos >= oldest {
                c.pos
            } else {
                oldest
            };
            let m = self.log[start].duplicate();
            c.pos = start + 1;
            Some(m)
        }
    }
}

} // verus!
