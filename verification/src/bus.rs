//! The broadcast bus: an in-process publish/subscribe channel. Publishing
//! appends to a shared log and never blocks on any subscriber; each
//! subscription reads the log through a cursor with a bounded window, and a
//! subscriber that falls more than the window behind is told it lagged
//! instead of holding committers back.

use crate::chat::OutgoingMessage;
use vstd::prelude::*;

verus! {

/// Bound on how far a subscription may fall behind the published log before
/// it is marked lagged.
pub const BUS_CAPACITY: usize = 20;

/// What one call to `Subscription::recv` yields.
#[derive(Debug, Clone, PartialEq)]
pub enum RecvOutcome {
    /// The next event, in publish order.
    Event(OutgoingMessage),
    /// Events were dropped because the subscriber was too slow.
    Lagged,
    /// No event is pending yet.
    Empty,
    /// The bus is shut down and fully drained.
    Closed,
}

/// The bus: the totally ordered log of published events.
pub struct Bus {
    pub log: Vec<OutgoingMessage>,
    pub closed: bool,
}

/// A per-subscriber read handle: a cursor into the bus log.
pub struct Subscription {
    pub cursor: usize,
}

/// Whether a cursor has fallen more than the window behind the log.
pub open spec fn spec_lagged(log_len: int, cursor: int) -> bool {
    log_len - cursor > BUS_CAPACITY
}

/// Where a subscription resumes reading: its own cursor, or the oldest
/// retained position after a lag.
pub open spec fn spec_drain_start(log_len: int, cursor: int) -> int {
    if spec_lagged(log_len, cursor) {
        log_len - BUS_CAPACITY
    } else {
        cursor
    }
}

/// What one receive yields and where the cursor lands: the lag signal and a
/// jump to the oldest retained event if the subscriber fell too far behind,
/// else the next event in publish order, else end-of-stream.
pub open spec fn spec_recv(log: Seq<OutgoingMessage>, closed: bool, cursor: int) -> (RecvOutcome,
    int) {
    if spec_lagged(log.len() as int, cursor) {
        (RecvOutcome::Lagged, log.len() - BUS_CAPACITY)
    } else if cursor < log.len() {
        (RecvOutcome::Event(log[cursor]), cursor + 1)
    } else if closed {
        (RecvOutcome::Closed, cursor)
    } else {
        (RecvOutcome::Empty, cursor)
    }
}

/// The events a subscription still observes when it drains the log: the tail
/// of the published order from its resume point.
pub open spec fn spec_drained(log: Seq<OutgoingMessage>, cursor: int) -> Seq<OutgoingMessage> {
    log.subrange(spec_drain_start(log.len() as int, cursor), log.len() as int)
}

impl Bus {
    /// An open bus with an empty log.
    pub fn new() -> (r: Self)
        ensures
            r.log@ == Seq::<OutgoingMessage>::empty(),
            !r.closed,
    {
        Bus { log: Vec::new(), closed: false }
    }

    /// Delivers an event to every subscription by appending it to the log.
    /// Total for every bus state: no subscriber, however slow, can make it
    /// block or fail.
    pub fn publish(&mut self, e: OutgoingMessage)
        ensures
            final(self).log@ == old(self).log@.push(e),
            final(self).closed == old(self).closed,
    {
        self.log.push(e);
    }

    /// Registers a receiver for the events published from now on.
    pub fn subscribe(&self) -> (s: Subscription)
        ensures
            s.cursor == self.log@.len(),
    {
        Subscription { cursor: self.log.len() }
    }

    /// Shuts the bus down; subscriptions still drain what was published.
    pub fn close(&mut self)
        ensures
            final(self).log@ == old(self).log@,
            final(self).closed,
    {
        self.closed = true;
    }
}

impl Subscription {
    /// Yields the next event in publish order, or the lag signal (moving the
    /// cursor to the oldest retained event), or reports the log drained.
    pub fn recv(&mut self, bus: &Bus) -> (r: RecvOutcome)
        requires
            old(self).cursor <= bus.log@.len(),
        ensures
            final(self).cursor <= bus.log@.len(),
            (r, final(self).cursor as int) == spec_recv(
                bus.log@,
                bus.closed,
                old(self).cursor as int,
            ),
    {
        let len = bus.log.len();
        if len - self.cursor > BUS_CAPACITY {
            self.cursor = len - BUS_CAPACITY;
            RecvOutcome::Lagged
        } else if self.cursor < len {
            let e = bus.log[self.cursor].duplicate();
            self.cursor = self.cursor + 1;
            RecvOutcome::Event(e)
        } else if bus.closed {
            RecvOutcome::Closed
        } else {
            RecvOutcome::Empty
        }
    }

    /// Receives until the log is drained, returning the observed events and
    /// whether the subscription lagged: exactly the tail of the published
    /// order from the resume point, in publish order.
    pub fn drain(&mut self, bus: &Bus) -> (r: (Vec<OutgoingMessage>, bool))
        requires
            old(self).cursor <= bus.log@.len(),
        ensures
            final(self).cursor == bus.log@.len(),
            r.1 == spec_lagged(bus.log@.len() as int, old(self).cursor as int),
            r.0@ == spec_drained(bus.log@, old(self).cursor as int),
    {
        let ghost start = spec_drain_start(bus.log@.len() as int, old(self).cursor as int);
        let mut out: Vec<OutgoingMessage> = Vec::new();
        let mut lagged = false;
        let mut done = false;
        while !done
            invariant
                self.cursor <= bus.log@.len(),
                start == spec_drain_start(bus.log@.len() as int, old(self).cursor as int),
                lagged == spec_lagged(bus.log@.len() as int, old(self).cursor as int) || (!lagged
                    && !done && self.cursor == old(self).cursor),
                !lagged && self.cursor == old(self).cursor || self.cursor >= start,
                self.cursor >= start || (!done && self.cursor == old(self).cursor),
                self.cursor >= start ==> out@ == bus.log@.subrange(start, self.cursor as int),
                !(self.cursor >= start) ==> out@.len() == 0,
                done ==> self.cursor == bus.log@.len(),
            decreases bus.log@.len() - self.cursor + (if done {
                0int
            } else {
                1int
            }),
        {
            match self.recv(bus) {
                RecvOutcome::Event(e) => {
                    proof {
                        assert(bus.log@.subrange(start, self.cursor as int) =~= bus.log@.subrange(
                            start,
                            self.cursor - 1,
                        ).push(bus.log@[self.cursor - 1]));
                    }
                    out.push(e);
                },
                RecvOutcome::Lagged => {
                    lagged = true;
                    proof {
                        assert(bus.log@.subrange(start, self.cursor as int) =~= Seq::<
                            OutgoingMessage,
                        >::empty());
                    }
                },
                RecvOutcome::Empty => {
                    done = true;
                },
                RecvOutcome::Closed => {
                    done = true;
                },
            }
        }
        proof {
            assert(out@ == spec_drained(bus.log@, old(self).cursor as int));
        }
        (out, lagged)
    }
}

/// Global order: two subscriptions that subscribed before two events were
/// published observe those events in the same order, the publish order. For
/// any cursors `a` and `b` whose resume windows still cover positions
/// `i < j`, the event published at `i` stands before the event published at
/// `j` in what either subscription drains.
pub proof fn lemma_global_order(log: Seq<OutgoingMessage>, a: int, b: int, i: int, j: int)
    requires
        0 <= a <= log.len(),
        0 <= b <= log.len(),
        spec_drain_start(log.len() as int, a) <= i,
        spec_drain_start(log.len() as int, b) <= i,
        i < j < log.len(),
    ensures
        spec_drained(log, a)[i - spec_drain_start(log.len() as int, a)] == log[i],
        spec_drained(log, a)[j - spec_drain_start(log.len() as int, a)] == log[j],
        spec_drained(log, b)[i - spec_drain_start(log.len() as int, b)] == log[i],
        spec_drained(log, b)[j - spec_drain_start(log.len() as int, b)] == log[j],
        i - spec_drain_start(log.len() as int, a) < j - spec_drain_start(log.len() as int, a),
        i - spec_drain_start(log.len() as int, b) < j - spec_drain_start(log.len() as int, b),
{
}

/// Liveness under a slow consumer: a subscription that has fallen behind the
/// window is handed the lag signal — and, by `Bus::publish`'s unconditional
/// contract, publishing keeps appending regardless of any cursor's position,
/// so a full subscriber never blocks commits by other sessions.
pub proof fn lemma_slow_consumer(log: Seq<OutgoingMessage>, closed: bool, cursor: int)
    requires
        0 <= cursor,
        spec_lagged(log.len() as int, cursor),
    ensures
        spec_recv(log, closed, cursor).0 == RecvOutcome::Lagged,
{
}

} // verus!
