//! The message pipeline's backpressure point: a bounded first-in-first-out
//! queue.
//!
//! The pipeline's queues are the only buffering in the message path. A full
//! queue rejects its producer — backpressure — and never silently drops a
//! message; what is dequeued comes out in the order it went in.

use vstd::prelude::*;

verus! {

/// A producer was rejected because the queue is at capacity.
#[derive(Debug)]
pub struct QueueFull;

/// A bounded first-in-first-out queue.
pub struct BoundedQueue<T> {
    /// The queued items, oldest first.
    pub items: Vec<T>,
    /// How many items fit.
    pub capacity: usize,
}

impl<T> BoundedQueue<T> {
    /// Never more items than the capacity.
    pub open spec fn wf(self) -> bool {
        self.items@.len() <= self.capacity
    }

    /// An empty queue of the given capacity.
    pub fn new(capacity: usize) -> (r: BoundedQueue<T>)
        ensures
            r.wf(),
            r.capacity == capacity,
            r.items@.len() == 0,
    {
        BoundedQueue { items: Vec::new(), capacity }
    }

    /// How many items wait.
    pub fn len(&self) -> (n: usize)
        ensures
            n == self.items@.len(),
    {
        self.items.len()
    }

    /// Enqueues an item. A full queue rejects the producer and hands the
    /// item back — it is never dropped; otherwise the item joins the back
    /// of the queue.
    pub fn enqueue(&mut self, item: T) -> (r: Result<(), (T, QueueFull)>)
        requires
            old(self).wf(),
        ensures
            final(self).wf(),
            final(self).capacity == old(self).capacity,
            old(self).items@.len() < old(self).capacity ==> r is Ok
                && final(self).items@ == old(self).items@.push(item),
            old(self).items@.len() == old(self).capacity ==> (r matches Err(back) && back.0
                == item) && *final(self) == *old(self),
    {
        if self.items.len() < self.capacity {
            self.items.push(item);
            Ok(())
        } else {
            Err((item, QueueFull))
        }
    }

    /// Dequeues the oldest item, or nothing when the queue is empty:
    /// first in, first out.
    pub fn dequeue(&mut self) -> (r: Option<T>)
        requires
            old(self).wf(),
        ensures
            final(self).wf(),
            final(self).capacity == old(self).capacity,
            old(self).items@.len() == 0 ==> r is None && *final(self) == *old(self),
            old(self).items@.len() > 0 ==> (r matches Some(x) && x == old(self).items@[0]
                && final(self).items@ == old(self).items@.drop_first()),
    {
        if self.items.len() == 0 {
            None
        } else {
            let x = self.items.remove(0);
            proof {
                assert(self.items@ =~= old(self).items@.drop_first());
            }
            Some(x)
        }
    }
}

} // verus!
