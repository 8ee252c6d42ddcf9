//! The per-session input queue.
//!
//! Callers enqueue whole byte buffers; the pump's write logic dequeues them
//! front-first.  The queue keeps a ghost record of every buffer ever pushed,
//! so that the pump can be proved to hand bytes to the transport in enqueue
//! order, at whole-buffer granularity.

use vstd::prelude::*;

use crate::errors::ConnError;

verus! {

/// Ordered, unbounded queue of byte buffers with one producer and one
/// consumer.  `closed` models the consumer side having stopped: pushes to a
/// closed queue fail with `QueueClosed`.
pub struct InputQueue {
    bufs: Vec<Vec<u8>>,
    closed: bool,
    /// Every buffer ever enqueued, oldest first.
    hist: Ghost<Seq<Seq<u8>>>,
    /// How many of those buffers have already been dequeued.
    taken: Ghost<nat>,
}

impl InputQueue {
    /// The buffers still waiting, oldest first.
    pub closed spec fn pending(self) -> Seq<Seq<u8>> {
        self.bufs.deep_view()
    }

    /// Every buffer ever enqueued, oldest first.
    pub closed spec fn history(self) -> Seq<Seq<u8>> {
        self.hist@
    }

    /// How many enqueued buffers the consumer has already taken.
    pub closed spec fn dequeued(self) -> nat {
        self.taken@
    }

    /// Whether the consumer side has stopped.
    pub closed spec fn is_closed(self) -> bool {
        self.closed
    }

    /// The queue's bookkeeping is consistent: what is pending is exactly the
    /// history minus the prefix already dequeued.
    pub open spec fn wf(self) -> bool {
        &&& self.dequeued() + self.pending().len() == self.history().len()
        &&& self.pending() == self.history().skip(self.dequeued() as int)
    }

    /// A fresh, open, empty queue.
    pub fn new() -> (q: InputQueue)
        ensures
            q.wf(),
            !q.is_closed(),
            q.pending() == Seq::<Seq<u8>>::empty(),
            q.history() == Seq::<Seq<u8>>::empty(),
            q.dequeued() == 0,
    {
        let q = InputQueue { bufs: Vec::new(), closed: false, hist: Ghost(Seq::empty()), taken: Ghost(0) };
        proof {
            assert(q.pending() =~~= Seq::<Seq<u8>>::empty());
            assert(q.history().skip(0) =~~= q.pending());
        }
        q
    }

    /// Enqueue one whole buffer at the back, unless the consumer is gone.
    pub fn push(&mut self, data: Vec<u8>) -> (r: Result<(), ConnError>)
        requires
            old(self).wf(),
        ensures
            final(self).wf(),
            final(self).is_closed() == old(self).is_closed(),
            final(self).dequeued() == old(self).dequeued(),
            old(self).is_closed() ==> ({
                &&& r == Err::<(), ConnError>(ConnError::QueueClosed)
                &&& final(self).pending() == old(self).pending()
                &&& final(self).history() == old(self).history()
            }),
            !old(self).is_closed() ==> ({
                &&& r == Ok::<(), ConnError>(())
                &&& final(self).pending() == old(self).pending().push(data@)
                &&& final(self).history() == old(self).history().push(data@)
            }),
    {
        if self.closed {
            return Err(ConnError::QueueClosed);
        }
        let ghost d = data@;
        self.bufs.push(data);
        self.hist = Ghost(self.hist@.push(d));
        proof {
            assert(self.pending() =~~= old(self).pending().push(d));
            assert(self.pending() =~~= self.history().skip(self.taken@ as int));
        }
        Ok(())
    }

    /// Dequeue the oldest pending buffer, if any.
    pub fn pop(&mut self) -> (r: Option<Vec<u8>>)
        requires
            old(self).wf(),
        ensures
            final(self).wf(),
            final(self).is_closed() == old(self).is_closed(),
            final(self).history() == old(self).history(),
            old(self).pending().len() == 0 ==> ({
                &&& r is None
                &&& final(self).pending() == old(self).pending()
                &&& final(self).dequeued() == old(self).dequeued()
            }),
            old(self).pending().len() > 0 ==> ({
                &&& r matches Some(b) && b@ == old(self).pending().first()
                &&& final(self).pending() == old(self).pending().drop_first()
                &&& final(self).dequeued() == old(self).dequeued() + 1
            }),
    {
        if self.bufs.len() == 0 {
            return None;
        }
        let b = self.bufs.remove(0);
        self.taken = Ghost(self.taken@ + 1);
        proof {
            assert(b@ =~= old(self).pending().first());
            assert(self.pending() =~~= old(self).pending().drop_first());
            assert(self.pending() =~~= self.history().skip(self.taken@ as int));
        }
        Some(b)
    }

    /// How many buffers are pending.
    pub fn len(&self) -> (n: usize)
        ensures
            n == self.pending().len(),
    {
        self.bufs.len()
    }

    /// Whether a push would be accepted.
    pub fn is_open(&self) -> (b: bool)
        ensures
            b == !self.is_closed(),
    {
        !self.closed
    }

    /// Mark the consumer side as stopped; pending buffers stay readable by the
    /// consumer, but no further pushes are accepted.
    pub fn close(&mut self)
        requires
            old(self).wf(),
        ensures
            final(self).wf(),
            final(self).is_closed(),
            final(self).pending() == old(self).pending(),
            final(self).history() == old(self).history(),
            final(self).dequeued() == old(self).dequeued(),
    {
        self.closed = true;
    }
}

} // verus!
