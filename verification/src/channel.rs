//! The handoff of readings from the sampler to the transport: a small
//! bounded queue that keeps the freshest readings and drops the oldest when
//! it is full, with a close signal for when either side is gone. The caller
//! guards it with a lock and waits on it with a bounded timeout.

use vstd::prelude::*;
use crate::sen0203::Reading;

verus! {

/// The queue as a mathematical value.
pub ghost struct QueueModel {
    /// The readings that wait, oldest first.
    pub items: Seq<Reading>,
    /// How many readings may wait.
    pub capacity: nat,
    /// Whether the channel was closed.
    pub closed: bool,
}

/// What the consumer gets from the queue.
#[derive(Clone, Copy, Debug)]
pub enum Received {
    /// The oldest reading that waited.
    Reading(Reading),
    /// Nothing waits, but the producer is alive: wait and ask again.
    Empty,
    /// Nothing waits and nothing will come.
    Closed,
}

impl QueueModel {
    /// There is room for a reading, and no more wait than there is room for.
    pub open spec fn wf(self) -> bool {
        0 < self.capacity && self.items.len() <= self.capacity
    }

    /// The queue after the producer offered `r`: a closed queue takes
    /// nothing; a full one drops its oldest reading to make room.
    pub open spec fn push(self, r: Reading) -> QueueModel {
        if self.closed {
            self
        } else if self.items.len() < self.capacity {
            QueueModel { items: self.items.push(r), ..self }
        } else {
            QueueModel { items: self.items.drop_first().push(r), ..self }
        }
    }

    /// The queue after the consumer asked once.
    pub open spec fn pop(self) -> QueueModel {
        if self.items.len() > 0 {
            QueueModel { items: self.items.drop_first(), ..self }
        } else {
            self
        }
    }

    /// Whether the consumer's question ends the wait: a reading waits, or
    /// the channel is closed.
    pub open spec fn resolves(self) -> bool {
        self.items.len() > 0 || self.closed
    }

    /// The queue after the producer offered the given readings, in order.
    pub open spec fn push_all(self, readings: Seq<Reading>) -> QueueModel
        decreases readings.len(),
    {
        if readings.len() == 0 {
            self
        } else {
            self.push_all(readings.drop_last()).push(readings.last())
        }
    }

    /// The queue after the consumer asked `n` times.
    pub open spec fn pop_n(self, n: nat) -> QueueModel
        decreases n,
    {
        if n == 0 {
            self
        } else {
            self.pop().pop_n((n - 1) as nat)
        }
    }
}

/// The bounded queue of readings.
pub struct ReadingQueue {
    slots: Vec<Reading>,
    capacity: usize,
    closed: bool,
}

impl View for ReadingQueue {
    type V = QueueModel;

    closed spec fn view(&self) -> QueueModel {
        QueueModel { items: self.slots@, capacity: self.capacity as nat, closed: self.closed }
    }
}

impl ReadingQueue {
    /// The queue's invariant.
    pub open spec fn wf(&self) -> bool {
        self@.wf()
    }

    /// An open, empty queue with room for `capacity` readings.
    pub fn new(capacity: usize) -> (q: Self)
        requires
            capacity > 0,
        ensures
            q.wf(),
            q@ == (QueueModel { items: Seq::empty(), capacity: capacity as nat, closed: false }),
    {
        ReadingQueue { slots: Vec::new(), capacity, closed: false }
    }

    /// How many readings wait.
    pub fn len(&self) -> (n: usize)
        ensures
            n == self@.items.len(),
    {
        self.slots.len()
    }

    /// Whether the channel was closed.
    pub fn is_closed(&self) -> (b: bool)
        ensures
            b == self@.closed,
    {
        self.closed
    }

    /// Closes the channel, from either side. Readings that wait stay.
    pub fn close(&mut self)
        requires
            old(self).wf(),
        ensures
            final(self).wf(),
            final(self)@ == (QueueModel { closed: true, ..old(self)@ }),
    {
        self.closed = true;
    }

    /// The producer offers a reading. It never waits: a full queue drops
    /// its oldest reading. Returns `false`, and takes nothing, exactly when
    /// the channel is closed.
    pub fn push(&mut self, r: Reading) -> (accepted: bool)
        requires
            old(self).wf(),
        ensures
            final(self).wf(),
            final(self)@ == old(self)@.push(r),
            accepted == !old(self)@.closed,
    {
        if self.closed {
            return false;
        }
        if self.slots.len() >= self.capacity {
            self.slots.remove(0);
            assert(self.slots@ =~= old(self)@.items.drop_first());
        }
        self.slots.push(r);
        true
    }

    /// The consumer asks for the oldest reading. Readings that wait are
    /// handed out even after the channel was closed; once none waits, a
    /// closed channel answers `Closed`, never `Empty`.
    pub fn pop(&mut self) -> (out: Received)
        requires
            old(self).wf(),
        ensures
            final(self).wf(),
            final(self)@ == old(self)@.pop(),
            match out {
                Received::Reading(r) => old(self)@.items.len() > 0 && r == old(self)@.items[0],
                Received::Empty => old(self)@.items.len() == 0 && !old(self)@.closed,
                Received::Closed => old(self)@.items.len() == 0 && old(self)@.closed,
            },
    {
        if self.slots.len() > 0 {
            let r = self.slots.remove(0);
            assert(self.slots@ =~= old(self)@.items.drop_first());
            Received::Reading(r)
        } else if self.closed {
            Received::Closed
        } else {
            Received::Empty
        }
    }
}

/// The queue never grows past its capacity, and right after an accepted
/// offer the newest reading is the one just offered.
pub proof fn lemma_push_keeps_newest(q: QueueModel, r: Reading)
    requires
        q.wf(),
        !q.closed,
    ensures
        q.push(r).wf(),
        q.push(r).items.last() == r,
        q.items.len() < q.capacity ==> q.push(r).items == q.items.push(r),
        q.items.len() == q.capacity ==> q.push(r).items.len() == q.capacity,
{
}

/// The last `n` of the given readings, or all of them if they are fewer.
pub open spec fn freshest(readings: Seq<Reading>, n: nat) -> Seq<Reading> {
    if readings.len() <= n {
        readings
    } else {
        readings.subrange(readings.len() - n, readings.len() as int)
    }
}

/// Freshness over completeness: whatever is offered to an open queue, what
/// waits afterwards is the freshest of what waited and what was offered,
/// as many as there is room for, oldest first.
pub proof fn lemma_queue_keeps_the_freshest(q: QueueModel, readings: Seq<Reading>)
    requires
        q.wf(),
        !q.closed,
    ensures
        q.push_all(readings).wf(),
        !q.push_all(readings).closed,
        q.push_all(readings).capacity == q.capacity,
        q.push_all(readings).items == freshest(q.items + readings, q.capacity),
    decreases readings.len(),
{
    if readings.len() == 0 {
        assert(q.items + readings =~= q.items);
    } else {
        let head = readings.drop_last();
        let last = readings.last();
        lemma_queue_keeps_the_freshest(q, head);
        let before = q.push_all(head);
        assert(q.items + readings =~= (q.items + head).push(last));
        assert(before.push(last).items =~= freshest(q.items + readings, q.capacity));
    }
}

/// Once the channel is closed, the consumer is never told to wait: every
/// question is answered with a reading or with the close signal, and after
/// as many questions as readings waited, the answer is the close signal.
pub proof fn lemma_closed_channel_resolves(q: QueueModel, n: nat)
    requires
        q.wf(),
        q.closed,
    ensures
        q.pop_n(n).closed,
        q.pop_n(n).resolves(),
        q.pop_n(n).wf(),
        n >= q.items.len() ==> q.pop_n(n).items.len() == 0,
        n <= q.items.len() ==> q.pop_n(n).items.len() == q.items.len() - n,
    decreases n,
{
    if n > 0 {
        lemma_closed_channel_resolves(q.pop(), (n - 1) as nat);
    }
}

} // verus!
