//! Bookkeeping for the I/O pump that drives a transport handle.
//!
//! The pump itself is a background loop in the unverified shell: it performs
//! the actual reads and writes and reports each outcome here.  This module
//! decides everything else — which bytes to write next, how a partial write
//! advances, when the loop must stop, and which event each read outcome
//! produces — and proves the ordering contract: bytes reach the transport in
//! enqueue order, at whole-buffer granularity, with no interleaving.

use vstd::prelude::*;
use vstd::seq_lib::group_seq_lib_default;

use crate::errors::ConnError;
use crate::events::OutputEvent;
use crate::queue::InputQueue;

verus! {

broadcast use group_seq_lib_default;

/// What one attempted transport read produced, as classified by the caller.
///
/// `WouldBlock` is normal control flow during polling, not an error.
#[derive(Debug)]
pub enum ReadOutcome {
    /// The transport returned end-of-stream.
    Eof,
    /// The transport produced these bytes.
    Data(Vec<u8>),
    /// Nothing available right now.
    WouldBlock,
    /// A non-transient read error.
    Failed,
}

/// Write-side and liveness state of one pump.
///
/// `sent()` is the ghost record of every byte handed to the transport, in
/// order; `fed()` the buffers dequeued from the input queue, in order.
pub struct PumpState {
    cur: Option<Vec<u8>>,
    pos: usize,
    stopped: bool,
    fed: Ghost<Seq<Seq<u8>>>,
    sent: Ghost<Seq<u8>>,
}

impl PumpState {
    /// The buffer currently being written, if any.
    pub closed spec fn current(self) -> Option<Seq<u8>> {
        match self.cur {
            Some(b) => Some(b@),
            None => None,
        }
    }

    /// How many bytes of the current buffer have already been written.
    pub closed spec fn position(self) -> nat {
        self.pos as nat
    }

    /// Whether the pump loop has terminated.
    pub closed spec fn is_stopped(self) -> bool {
        self.stopped
    }

    /// The buffers dequeued from the input queue so far, in dequeue order.
    pub closed spec fn fed(self) -> Seq<Seq<u8>> {
        self.fed@
    }

    /// Every byte handed to the transport so far, in order.
    pub closed spec fn sent(self) -> Seq<u8> {
        self.sent@
    }

    /// Write bookkeeping is consistent: the bytes sent are exactly the fully
    /// written buffers, in order, followed by the written prefix of the
    /// buffer now in flight.
    pub open spec fn wf(self) -> bool {
        match self.current() {
            Some(b) => {
                &&& self.position() < b.len()
                &&& self.fed().len() > 0
                &&& self.fed().last() == b
                &&& self.sent() == self.fed().drop_last().flatten() + b.take(self.position() as int)
            },
            None => {
                &&& self.position() == 0
                &&& self.sent() == self.fed().flatten()
            },
        }
    }

    /// The pump and the queue it consumes agree: together, what the pump took
    /// and what is still pending is the queue's full enqueue history.
    pub open spec fn consumes(self, q: InputQueue) -> bool {
        &&& q.wf()
        &&& self.fed() == q.history().take(self.fed().len() as int)
        &&& self.fed().len() == q.dequeued()
    }

    /// A fresh pump: nothing in flight, nothing sent, loop running.
    pub fn new() -> (p: PumpState)
        ensures
            p.wf(),
            !p.is_stopped(),
            p.current() is None,
            p.fed() == Seq::<Seq<u8>>::empty(),
            p.sent() == Seq::<u8>::empty(),
    {
        let p = PumpState { cur: None, pos: 0, stopped: false, fed: Ghost(Seq::empty()), sent: Ghost(Seq::empty()) };
        proof {
            assert(p.fed().flatten() =~= Seq::<u8>::empty());
        }
        p
    }

    /// If no write is in flight, dequeue the next buffer to write.  Empty
    /// buffers have nothing to write and are completed on the spot.  Returns
    /// whether a write is now in flight.
    pub fn start_write(&mut self, q: &mut InputQueue) -> (pending: bool)
        requires
            old(self).wf(),
            !old(self).is_stopped(),
            old(self).current() is None,
            old(self).consumes(*old(q)),
        ensures
            final(self).wf(),
            final(self).consumes(*final(q)),
            !final(self).is_stopped(),
            final(self).sent() == old(self).sent(),
            final(q).history() == old(q).history(),
            final(q).is_closed() == old(q).is_closed(),
            old(q).pending().len() == 0 ==> ({
                &&& !pending
                &&& final(self).fed() == old(self).fed()
                &&& final(self).current() == old(self).current()
                &&& final(self).position() == old(self).position()
                &&& final(q).pending() == old(q).pending()
                &&& final(q).dequeued() == old(q).dequeued()
            }),
            old(q).pending().len() > 0 ==> ({
                &&& final(self).fed() == old(self).fed().push(old(q).pending().first())
                &&& final(q).pending() == old(q).pending().drop_first()
                &&& pending == (old(q).pending().first().len() > 0)
                &&& (pending ==> final(self).current() == Some(old(q).pending().first()) && final(self).position() == 0)
                &&& (!pending ==> final(self).current() is None)
            }),
    {
        match q.pop() {
            None => false,
            Some(b) => {
                let ghost bv = b@;
                self.fed = Ghost(self.fed@.push(bv));
                proof {
                    assert(self.fed() =~= q.history().take(self.fed().len() as int));
                }
                if b.len() == 0 {
                    proof {
                        assert(self.fed().drop_last() =~= old(self).fed());
                        assert(self.fed() =~= self.fed().drop_last().push(bv));
                        self.fed().drop_last().lemma_flatten_push(bv);
                        assert(self.fed().flatten() =~= old(self).fed().flatten() + bv);
                        assert(self.sent() =~= self.fed().flatten());
                    }
                    false
                } else {
                    self.cur = Some(b);
                    self.pos = 0;
                    proof {
                        assert(self.fed().drop_last() =~= old(self).fed());
                        assert(bv.take(0) =~= Seq::<u8>::empty());
                        assert(self.sent() =~= self.fed().drop_last().flatten() + bv.take(0));
                    }
                    true
                }
            },
        }
    }

    /// Whether a write is in flight.
    pub fn has_pending_write(&self) -> (b: bool)
        ensures
            b == (self.current() is Some),
    {
        match &self.cur {
            Some(_) => true,
            None => false,
        }
    }

    /// The buffer now in flight, for the caller to write from.
    pub fn current_buffer(&self) -> (r: &Vec<u8>)
        requires
            self.current() is Some,
        ensures
            Some(r@) == self.current(),
    {
        match &self.cur {
            Some(b) => b,
            None => unreached(),
        }
    }

    /// How far into the buffer in flight the next write must start.
    pub fn write_position(&self) -> (n: usize)
        ensures
            n == self.position(),
    {
        self.pos
    }

    /// Record that the transport accepted `n` more bytes of the buffer in
    /// flight.  Returns whether the buffer is now fully written (the caller
    /// then flushes the transport).
    pub fn advance_write(&mut self, n: usize) -> (finished: bool)
        requires
            old(self).wf(),
            !old(self).is_stopped(),
            old(self).current() is Some,
            n <= old(self).current().unwrap().len() - old(self).position(),
        ensures
            final(self).wf(),
            !final(self).is_stopped(),
            final(self).fed() == old(self).fed(),
            final(self).sent() == old(self).sent() + old(self).current().unwrap().subrange(
                old(self).position() as int,
                old(self).position() + n,
            ),
            finished == (old(self).position() + n == old(self).current().unwrap().len()),
            finished ==> final(self).current() is None && final(self).position() == 0,
            !finished ==> final(self).current() == old(self).current() && final(self).position() == old(self).position() + n,
    {
        let ghost b = self.current().unwrap();
        let ghost oldpos = self.pos as int;
        let buf_len = match &self.cur {
            Some(b) => b.len(),
            None => unreached(),
        };
        self.pos = self.pos + n;
        self.sent = Ghost(self.sent@ + b.subrange(oldpos, oldpos + n as int));
        proof {
            assert(b.take(oldpos) + b.subrange(oldpos, oldpos + n as int) =~= b.take(oldpos + n as int));
            assert(self.sent@ =~= self.fed@.drop_last().flatten() + b.take(oldpos + n as int));
        }
        if self.pos == buf_len {
            self.cur = None;
            self.pos = 0;
            proof {
                assert(b.take(b.len() as int) =~= b);
                self.fed@.drop_last().lemma_flatten_push(b);
                assert(self.fed@.drop_last().push(b) =~= self.fed@);
                assert(self.sent@ =~= self.fed@.flatten());
            }
            true
        } else {
            false
        }
    }

    /// Record a failed write.  A would-block is normal polling control flow
    /// and changes nothing; any other write error is connection loss: the
    /// pump stops and the loss is reported once.
    pub fn write_failed(&mut self, would_block: bool) -> (ev: Option<OutputEvent>)
        requires
            old(self).wf(),
            !old(self).is_stopped(),
        ensures
            final(self).wf(),
            final(self).fed() == old(self).fed(),
            final(self).sent() == old(self).sent(),
            final(self).current() == old(self).current(),
            final(self).position() == old(self).position(),
            would_block ==> ev is None && !final(self).is_stopped(),
            !would_block ==> (ev matches Some(e)
                && (e matches OutputEvent::Error(m) && m@ == ConnError::IoError.spec_message()))
                && final(self).is_stopped(),
    {
        if would_block {
            None
        } else {
            self.stopped = true;
            Some(OutputEvent::error_event(ConnError::IoError))
        }
    }

    /// Classify one read outcome into the event to deliver, stopping the pump
    /// on end-of-stream or a non-transient error.
    pub fn handle_read(&mut self, outcome: ReadOutcome) -> (ev: Option<OutputEvent>)
        requires
            old(self).wf(),
            !old(self).is_stopped(),
        ensures
            final(self).wf(),
            final(self).fed() == old(self).fed(),
            final(self).sent() == old(self).sent(),
            final(self).current() == old(self).current(),
            final(self).position() == old(self).position(),
            match outcome {
                ReadOutcome::Eof => ev == Some(OutputEvent::Closed) && final(self).is_stopped(),
                ReadOutcome::Data(d) => ev == Some(OutputEvent::Data(d)) && !final(self).is_stopped(),
                ReadOutcome::WouldBlock => ev is None && !final(self).is_stopped(),
                ReadOutcome::Failed => (ev matches Some(e)
                    && (e matches OutputEvent::Error(m) && m@ == ConnError::IoError.spec_message()))
                    && final(self).is_stopped(),
            },
    {
        match outcome {
            ReadOutcome::Eof => {
                self.stopped = true;
                Some(OutputEvent::Closed)
            },
            ReadOutcome::Data(d) => Some(OutputEvent::Data(d)),
            ReadOutcome::WouldBlock => None,
            ReadOutcome::Failed => {
                self.stopped = true;
                Some(OutputEvent::error_event(ConnError::IoError))
            },
        }
    }

    /// Observe the shutdown signal once per iteration; a raised signal stops
    /// the pump before any further transport work.
    pub fn observe_shutdown(&mut self, signal: bool)
        requires
            old(self).wf(),
        ensures
            final(self).wf(),
            final(self).fed() == old(self).fed(),
            final(self).sent() == old(self).sent(),
            final(self).current() == old(self).current(),
            final(self).position() == old(self).position(),
            final(self).is_stopped() == (old(self).is_stopped() || signal),
    {
        if signal {
            self.stopped = true;
        }
    }

    /// Whether the pump loop must exit.
    pub fn should_stop(&self) -> (b: bool)
        ensures
            b == self.is_stopped(),
    {
        self.stopped
    }
}

/// Input ordering law: every byte handed to the transport comes from the
/// enqueue history, in call order, at whole-buffer granularity.  With no
/// write in flight, the bytes sent are exactly the concatenation of the first
/// `k` enqueued buffers; with one in flight, exactly that concatenation plus
/// a prefix of buffer `k + 1`.  No bytes are reordered, dropped, duplicated
/// or interleaved.
pub proof fn lemma_input_written_in_order(p: PumpState, q: InputQueue)
    requires
        p.wf(),
        p.consumes(q),
    ensures
        p.current() is None ==> p.sent() == q.history().take(p.fed().len() as int).flatten(),
        p.current() matches Some(b) ==> {
            let k = (p.fed().len() - 1) as int;
            &&& 0 <= k < q.history().len()
            &&& b == q.history()[k]
            &&& p.sent() == q.history().take(k).flatten() + b.take(p.position() as int)
        },
{
    match p.current() {
        None => {
            assert(p.sent() == p.fed().flatten());
        },
        Some(b) => {
            let k = (p.fed().len() - 1) as int;
            assert(p.fed() == q.history().take(p.fed().len() as int));
            assert(p.fed().last() == q.history()[k]);
            assert(p.fed().drop_last() =~= q.history().take(k));
        },
    }
}

} // verus!
