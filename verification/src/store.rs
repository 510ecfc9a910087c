//! The message store: the durable log of chat messages and the sole source
//! of message ids and timestamps. Ids are unique and strictly increasing in
//! commit order; timestamps are store-assigned and never decrease, so the
//! reverse of the log is ordered by timestamp descending, most recent first.

use crate::chat::ChatMessage;
use vstd::prelude::*;

verus! {

/// Upper bound on store-assigned timestamps (microseconds since the Unix
/// epoch), far beyond any realistic clock reading and well inside the range
/// every timestamp formatter accepts.
pub const MAX_TIMESTAMP_MICROS: i64 = 4_102_444_800_000_000;

/// Why a store operation failed.
#[derive(Debug, Clone, PartialEq)]
pub enum StoreError {
    /// The store cannot take further writes.
    StoreUnavailable,
    /// The author is not registered.
    ConstraintViolation,
    /// The input was rejected, e.g. an empty message body.
    InvalidArgument,
}

/// The first row with the given id, searched front to back.
pub open spec fn spec_find(rows: Seq<ChatMessage>, id: i32) -> Option<ChatMessage>
    decreases rows.len(),
{
    if rows.len() == 0 {
        None
    } else if rows[0].id == id {
        Some(rows[0])
    } else {
        spec_find(rows.skip(1), id)
    }
}

/// An in-memory message log ordered by commit time.
pub struct MessageStore {
    pub rows: Vec<ChatMessage>,
    pub next_id: i32,
    pub clock: i64,
}

impl MessageStore {
    /// Well-formedness: ids are at least 1, strictly increasing in commit
    /// order and below `next_id`; timestamps are non-negative, non-decreasing
    /// in commit order and bounded by the store clock.
    pub open spec fn wf(&self) -> bool {
        &&& 1 <= self.next_id
        &&& 0 <= self.clock <= MAX_TIMESTAMP_MICROS
        &&& forall|i: int|
            0 <= i < self.rows@.len() ==> {
                &&& 1 <= (#[trigger] self.rows@[i]).id < self.next_id
                &&& 0 <= self.rows@[i].time <= self.clock
            }
        &&& forall|i: int, j: int|
            0 <= i < j < self.rows@.len() ==> {
                &&& (#[trigger] self.rows@[i]).id < (#[trigger] self.rows@[j]).id
                &&& self.rows@[i].time <= self.rows@[j].time
            }
    }

    /// An empty store, ready to accept the first message with id 1.
    pub fn new() -> (r: Self)
        ensures
            r.wf(),
            r.rows@ == Seq::<ChatMessage>::empty(),
            r.next_id == 1,
            r.clock == 0,
    {
        MessageStore { rows: Vec::new(), next_id: 1, clock: 0 }
    }

    /// Atomic insert. Succeeds exactly on a non-empty body while ids remain
    /// available, returning the fully populated row with the store-assigned
    /// id and timestamp; the author fields are taken verbatim from the
    /// arguments. The assigned timestamp is the given clock reading, clamped
    /// so that timestamps never decrease across commits.
    pub fn append(&mut self, email: &String, username: &String, message: &String, now: i64) -> (r:
        Result<ChatMessage, StoreError>)
        requires
            old(self).wf(),
            0 <= now <= MAX_TIMESTAMP_MICROS,
        ensures
            final(self).wf(),
            message@.len() == 0 ==> {
                &&& r == Err::<ChatMessage, StoreError>(StoreError::InvalidArgument)
                &&& *final(self) == *old(self)
            },
            message@.len() > 0 && old(self).next_id == i32::MAX ==> {
                &&& r == Err::<ChatMessage, StoreError>(StoreError::StoreUnavailable)
                &&& *final(self) == *old(self)
            },
            message@.len() > 0 && old(self).next_id < i32::MAX ==> {
                &&& r matches Ok(m)
                &&& m.id == old(self).next_id
                &&& m.email@ == email@
                &&& m.username@ == username@
                &&& m.message@ == message@
                &&& m.time == if now >= old(self).clock {
                    now
                } else {
                    old(self).clock
                }
                &&& final(self).rows@ == old(self).rows@.push(m)
                &&& final(self).next_id == old(self).next_id + 1
                &&& final(self).clock == m.time
            },
    {
        if message.as_str().is_empty() {
            return Err(StoreError::InvalidArgument);
        }
        if self.next_id == i32::MAX {
            return Err(StoreError::StoreUnavailable);
        }
        let time: i64 = if now >= self.clock {
            now
        } else {
            self.clock
        };
        let row = ChatMessage {
            id: self.next_id,
            email: email.clone(),
            username: username.clone(),
            message: message.clone(),
            time,
        };
        let out = row.duplicate();
        self.rows.push(row);
        self.next_id = self.next_id + 1;
        self.clock = time;
        Ok(out)
    }

    /// The row with the given id, or absence.
    pub fn fetch_by_id(&self, id: i32) -> (r: Option<ChatMessage>)
        ensures
            r == spec_find(self.rows@, id),
    {
        let n = self.rows.len();
        let mut i: usize = 0;
        proof {
            assert(self.rows@.skip(0) =~= self.rows@);
        }
        while i < n
            invariant
                n == self.rows@.len(),
                0 <= i <= n,
                spec_find(self.rows@, id) == spec_find(self.rows@.skip(i as int), id),
            decreases n - i,
        {
            if self.rows[i].id == id {
                proof {
                    assert(self.rows@.skip(i as int)[0] == self.rows@[i as int]);
                }
                return Some(self.rows[i].duplicate());
            }
            proof {
                assert(self.rows@.skip(i as int)[0] == self.rows@[i as int]);
                assert(self.rows@.skip(i as int).skip(1) =~= self.rows@.skip(i + 1));
            }
            i = i + 1;
        }
        proof {
            assert(self.rows@.skip(n as int).len() == 0);
        }
        None
    }

    /// Deletes the row with the given id and reports whether a row was
    /// removed; everything else in the store is untouched.
    pub fn delete_by_id(&mut self, id: i32) -> (r: bool)
        requires
            old(self).wf(),
        ensures
            final(self).wf(),
            final(self).next_id == old(self).next_id,
            final(self).clock == old(self).clock,
            r == (spec_find(old(self).rows@, id) is Some),
            !r ==> *final(self) == *old(self),
            r ==> exists|i: int|
                {
                    &&& 0 <= i < old(self).rows@.len()
                    &&& (#[trigger] old(self).rows@[i]).id == id
                    &&& final(self).rows@ == old(self).rows@.remove(i)
                },
    {
        let n = self.rows.len();
        let mut i: usize = 0;
        proof {
            assert(self.rows@.skip(0) =~= self.rows@);
        }
        while i < n
            invariant
                *self == *old(self),
                n == self.rows@.len(),
                0 <= i <= n,
                spec_find(self.rows@, id) == spec_find(self.rows@.skip(i as int), id),
                old(self).wf(),
            decreases n - i,
        {
            if self.rows[i].id == id {
                proof {
                    assert(self.rows@.skip(i as int)[0] == self.rows@[i as int]);
                }
                let ghost pre = self.rows@;
                self.rows.remove(i);
                proof {
                    pre.remove_ensures(i as int);
                    assert forall|p: int, q: int| 0 <= p < q < self.rows@.len() implies {
                        &&& (#[trigger] self.rows@[p]).id < (#[trigger] self.rows@[q]).id
                        &&& self.rows@[p].time <= self.rows@[q].time
                    } by {
                        let p0 = if p < i as int {
                            p
                        } else {
                            p + 1
                        };
                        let q0 = if q < i as int {
                            q
                        } else {
                            q + 1
                        };
                        assert(self.rows@[p] == pre[p0]);
                        assert(self.rows@[q] == pre[q0]);
                    }
                }
                return true;
            }
            proof {
                assert(self.rows@.skip(i as int)[0] == self.rows@[i as int]);
                assert(self.rows@.skip(i as int).skip(1) =~= self.rows@.skip(i + 1));
            }
            i = i + 1;
        }
        proof {
            assert(self.rows@.skip(n as int).len() == 0);
        }
        false
    }

    /// Every message, most recent first: the reverse of the commit-ordered
    /// log, which by the store invariant is ordered by timestamp descending.
    pub fn fetch_all(&self) -> (r: Vec<ChatMessage>)
        ensures
            r@ == self.rows@.reverse(),
    {
        let n = self.rows.len();
        let mut out: Vec<ChatMessage> = Vec::new();
        let mut i: usize = n;
        while i > 0
            invariant
                n == self.rows@.len(),
                0 <= i <= n,
                out@.len() == n - i,
                forall|k: int|
                    0 <= k < out@.len() ==> #[trigger] out@[k] == self.rows@[n - 1 - k],
            decreases i,
        {
            i = i - 1;
            out.push(self.rows[i].duplicate());
        }
        proof {
            assert(out@ =~= self.rows@.reverse());
        }
        out
    }
}

/// A row that `spec_find` returns carries the id it was looked up by and
/// stands in the log.
pub proof fn lemma_find_some(rows: Seq<ChatMessage>, id: i32)
    requires
        spec_find(rows, id) is Some,
    ensures
        spec_find(rows, id)->Some_0.id == id,
        exists|i: int| 0 <= i < rows.len() && #[trigger] rows[i] == spec_find(rows, id)->Some_0,
    decreases rows.len(),
{
    if rows.len() == 0 {
    } else if rows[0].id == id {
        assert(rows[0] == spec_find(rows, id)->Some_0);
    } else {
        lemma_find_some(rows.skip(1), id);
        let j = choose|j: int|
            0 <= j < rows.skip(1).len() && #[trigger] rows.skip(1)[j] == spec_find(
                rows.skip(1),
                id,
            )->Some_0;
        assert(rows[j + 1] == rows.skip(1)[j]);
    }
}

/// When `spec_find` reports absence, no row in the log has the id.
pub proof fn lemma_find_none(rows: Seq<ChatMessage>, id: i32)
    requires
        spec_find(rows, id) is None,
    ensures
        forall|i: int| 0 <= i < rows.len() ==> (#[trigger] rows[i]).id != id,
    decreases rows.len(),
{
    if rows.len() == 0 {
    } else {
        lemma_find_none(rows.skip(1), id);
        assert forall|i: int| 0 <= i < rows.len() implies (#[trigger] rows[i]).id != id by {
            if i > 0 {
                assert(rows[i] == rows.skip(1)[i - 1]);
            }
        }
    }
}

/// History faithfulness after a commit: once the log has gained a row, the
/// history read, which returns the reversed log, contains that row.
pub proof fn lemma_history_after_append(pre: Seq<ChatMessage>, post: Seq<ChatMessage>, m: ChatMessage)
    requires
        post == pre.push(m),
    ensures
        post.reverse().len() == pre.len() + 1,
        post.reverse()[0] == m,
        post.reverse().contains(m),
{
    assert(post.reverse()[0] == post[post.len() - 1]);
}

} // verus!
