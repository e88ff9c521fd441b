//! A bounded first-in, first-out queue of received messages.
//!
//! The receiver side offers messages; the tick side takes them out in
//! batches. A full queue refuses the offer and hands the message back, so a
//! slow consumer slows the producer down instead of growing without bound.

use std::collections::VecDeque;
use vstd::prelude::*;

verus! {

/// Number of messages a tick takes from a queue holding `queued` messages
/// when it may take at most `limit`.
pub open spec fn batch_size(queued: nat, limit: nat) -> nat {
    if queued <= limit {
        queued
    } else {
        limit
    }
}

/// Bounded FIFO queue. Its view is the queued messages, oldest first.
pub struct EchoQueue<T> {
    items: VecDeque<T>,
    capacity: usize,
}

impl<T> View for EchoQueue<T> {
    type V = Seq<T>;

    closed spec fn view(&self) -> Seq<T> {
        self.items@
    }
}

impl<T> EchoQueue<T> {
    /// The most messages the queue holds at once.
    pub closed spec fn capacity(&self) -> nat {
        self.capacity as nat
    }

    /// The queue never holds more than its capacity.
    pub open spec fn wf(&self) -> bool {
        self@.len() <= self.capacity()
    }

    /// An empty queue that holds up to `capacity` messages.
    pub fn new(capacity: usize) -> (queue: Self)
        ensures
            queue.wf(),
            queue@ == Seq::<T>::empty(),
            queue.capacity() == capacity,
    {
        EchoQueue { items: VecDeque::new(), capacity }
    }

    /// Number of queued messages.
    pub fn len(&self) -> (n: usize)
        ensures
            n == self@.len(),
    {
        self.items.len()
    }

    /// Whether no message is queued.
    pub fn is_empty(&self) -> (empty: bool)
        ensures
            empty <==> self@.len() == 0,
    {
        self.items.len() == 0
    }

    /// Whether the next offer would be refused.
    pub fn is_full(&self) -> (full: bool)
        requires
            self.wf(),
        ensures
            full <==> self@.len() == self.capacity(),
    {
        self.items.len() >= self.capacity
    }

    /// Appends `message` behind the queued ones, or hands it back untouched
    /// when the queue is full.
    pub fn offer(&mut self, message: T) -> (refused: Option<T>)
        requires
            old(self).wf(),
        ensures
            final(self).wf(),
            final(self).capacity() == old(self).capacity(),
            refused is Some <==> old(self)@.len() == old(self).capacity(),
            refused is Some ==> refused == Some(message) && final(self)@ == old(self)@,
            refused is None ==> final(self)@ == old(self)@.push(message),
    {
        if self.items.len() >= self.capacity {
            Some(message)
        } else {
            self.items.push_back(message);
            None
        }
    }

    /// Removes the oldest `batch_size(len, limit)` messages and returns them
    /// in the order they were queued. The rest stays queued, order kept.
    pub fn take_batch(&mut self, limit: usize) -> (batch: Vec<T>)
        requires
            old(self).wf(),
        ensures
            final(self).wf(),
            final(self).capacity() == old(self).capacity(),
            batch@ == old(self)@.subrange(
                0,
                batch_size(old(self)@.len(), limit as nat) as int,
            ),
            final(self)@ == old(self)@.subrange(
                batch_size(old(self)@.len(), limit as nat) as int,
                old(self)@.len() as int,
            ),
    {
        let ghost before = self.items@;
        let queued = self.items.len();
        let count = if queued <= limit {
            queued
        } else {
            limit
        };
        let mut batch: Vec<T> = Vec::new();
        while batch.len() < count
            invariant
                count <= before.len(),
                batch.len() <= count,
                batch@ == before.subrange(0, batch.len() as int),
                self.items@ == before.subrange(batch.len() as int, before.len() as int),
                self.capacity == old(self).capacity,
            decreases count - batch.len(),
        {
            let front = self.items.pop_front();
            match front {
                Some(message) => {
                    batch.push(message);
                },
                None => {},
            }
        }
        batch
    }

    /// Removes every queued message and returns them oldest first.
    pub fn take_all(&mut self) -> (batch: Vec<T>)
        requires
            old(self).wf(),
        ensures
            final(self).wf(),
            final(self).capacity() == old(self).capacity(),
            batch@ == old(self)@,
            final(self)@ == Seq::<T>::empty(),
    {
        let queued = self.items.len();
        self.take_batch(queued)
    }
}

/// Taking a batch neither loses nor reorders anything: the batch followed by
/// what stays queued is the queue as it was.
pub proof fn lemma_batch_splits_queue<T>(queued: Seq<T>, limit: nat)
    ensures
        queued.subrange(0, batch_size(queued.len(), limit) as int) + queued.subrange(
            batch_size(queued.len(), limit) as int,
            queued.len() as int,
        ) == queued,
        batch_size(queued.len(), limit) <= limit,
        batch_size(queued.len(), limit) <= queued.len(),
{
}

} // verus!
