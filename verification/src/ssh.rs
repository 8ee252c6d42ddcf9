//! Lifecycle state machine of a secure remote session.
//!
//! The unverified shell performs the network connect, the secure-transport
//! handshake, the key authentication and the channel open, and reports how
//! far the attempt got as a [`ConnectOutcome`].  This module owns everything
//! decidable: when an attempt may start, which error each failed stage
//! surfaces, and the uniform lifecycle contract (`send_input`, `resize`,
//! `disconnect`) that both backends share.

use vstd::prelude::*;

use crate::errors::ConnError;
use crate::queue::InputQueue;

verus! {

/// How far a remote connect attempt got, as reported by the caller.
///
/// Each failing stage is fatal to the attempt and maps to one distinct error:
/// network connect failure to `ConnectError`, a failed handshake to
/// `ProtocolError`, a rejected key or passphrase to `AuthFailed`, and a
/// failure to open or size the interactive shell channel to `ProtocolError`.
#[derive(Clone, Copy, Debug, PartialEq, Eq, Structural)]
pub enum ConnectOutcome {
    /// The network connection could not be opened.
    TcpFailed,
    /// The secure-transport handshake failed.
    HandshakeFailed,
    /// The server rejected the supplied key credential.
    AuthRejected,
    /// The shell channel could not be opened or configured.
    ChannelFailed,
    /// A shell channel is open and ready for I/O.
    Ready,
}

/// Per-session wrapper over the secure remote backend.
///
/// This is the control state of one session: the transport objects themselves
/// (socket, secure session, channel) live with the unverified shell, which
/// keeps them populated exactly while `is_connected()` holds.
pub struct SshConnection {
    session_id: String,
    connected: bool,
    input: Option<InputQueue>,
    shutdown: bool,
    cols: u32,
    rows: u32,
}

impl SshConnection {
    /// The caller-supplied session key.
    pub closed spec fn id(self) -> Seq<char> {
        self.session_id@
    }

    /// Whether a transport is populated and pumps may run.
    pub closed spec fn is_connected(self) -> bool {
        self.connected
    }

    /// Whether an input path exists.
    pub closed spec fn has_input(self) -> bool {
        self.input is Some
    }

    /// The input queue, while one exists.
    pub closed spec fn input_queue(self) -> InputQueue
        recommends
            self.has_input(),
    {
        self.input->Some_0
    }

    /// Whether the shutdown signal has been raised.
    pub closed spec fn shutdown_raised(self) -> bool {
        self.shutdown
    }

    /// The geometry last requested of the transport, columns then rows.
    pub closed spec fn geometry(self) -> (u32, u32) {
        (self.cols, self.rows)
    }

    /// Fully empty: no transport, no input path, no raised signal, default
    /// geometry.  A connection is in this state before `connect` and again
    /// after `disconnect`.
    pub open spec fn is_cleared(self) -> bool {
        &&& !self.is_connected()
        &&& !self.has_input()
        &&& !self.shutdown_raised()
        &&& self.geometry() == (crate::DEFAULT_COLS as u32, crate::DEFAULT_ROWS as u32)
    }

    /// Structural invariant: the input path exists exactly while connected,
    /// a disconnected instance is fully empty, and the queue bookkeeping is
    /// consistent.
    pub open spec fn wf(self) -> bool {
        &&& self.is_connected() <==> self.has_input()
        &&& !self.is_connected() ==> self.is_cleared()
        &&& self.has_input() ==> self.input_queue().wf()
    }

    /// Whether a transport is currently populated.
    pub fn connected(&self) -> (b: bool)
        ensures
            b == self.is_connected(),
    {
        self.connected
    }

    /// The geometry last requested of the transport.
    pub fn current_geometry(&self) -> (g: (u32, u32))
        ensures
            g == self.geometry(),
    {
        (self.cols, self.rows)
    }

    /// The caller-supplied session key, for keyed lookups.
    pub fn id_str(&self) -> (r: &String)
        ensures
            r@ == self.id(),
    {
        &self.session_id
    }

    /// A new, never-connected instance for this session id.
    pub fn new(session_id: String) -> (c: SshConnection)
        ensures
            c.wf(),
            c.is_cleared(),
            c.id() == session_id@,
    {
        SshConnection {
            session_id,
            connected: false,
            input: None,
            shutdown: false,
            cols: crate::DEFAULT_COLS as u32,
            rows: crate::DEFAULT_ROWS as u32,
        }
    }

    /// Record the outcome of one connect attempt.
    ///
    /// An attempt on an already-connected instance is rejected with
    /// `ConnectError` and changes nothing.  A failed attempt leaves the
    /// connection fully empty — no partially populated fields.  A ready
    /// transport moves the connection to the operational state: a fresh open
    /// input queue, no raised signal, and the default initial geometry.
    pub fn connect(&mut self, outcome: ConnectOutcome) -> (r: Result<(), ConnError>)
        requires
            old(self).wf(),
        ensures
            final(self).wf(),
            final(self).id() == old(self).id(),
            old(self).is_connected() ==> ({
                &&& r == Err::<(), ConnError>(ConnError::ConnectError)
                &&& *final(self) == *old(self)
            }),
            !old(self).is_connected() ==> match outcome {
                ConnectOutcome::TcpFailed => r == Err::<(), ConnError>(ConnError::ConnectError)
                    && final(self).is_cleared(),
                ConnectOutcome::HandshakeFailed => r == Err::<(), ConnError>(ConnError::ProtocolError)
                    && final(self).is_cleared(),
                ConnectOutcome::AuthRejected => r == Err::<(), ConnError>(ConnError::AuthFailed)
                    && final(self).is_cleared(),
                ConnectOutcome::ChannelFailed => r == Err::<(), ConnError>(ConnError::ProtocolError)
                    && final(self).is_cleared(),
                ConnectOutcome::Ready => ({
                    &&& r == Ok::<(), ConnError>(())
                    &&& final(self).is_connected()
                    &&& final(self).has_input()
                    &&& !final(self).input_queue().is_closed()
                    &&& final(self).input_queue().pending() == Seq::<Seq<u8>>::empty()
                    &&& final(self).input_queue().history() == Seq::<Seq<u8>>::empty()
                    &&& final(self).input_queue().dequeued() == 0
                    &&& !final(self).shutdown_raised()
                    &&& final(self).geometry() == (crate::DEFAULT_COLS as u32, crate::DEFAULT_ROWS as u32)
                }),
            },
    {
        if self.connected {
            return Err(ConnError::ConnectError);
        }
        match outcome {
            ConnectOutcome::TcpFailed => Err(ConnError::ConnectError),
            ConnectOutcome::HandshakeFailed => Err(ConnError::ProtocolError),
            ConnectOutcome::AuthRejected => Err(ConnError::AuthFailed),
            ConnectOutcome::ChannelFailed => Err(ConnError::ProtocolError),
            ConnectOutcome::Ready => {
                self.connected = true;
                self.input = Some(InputQueue::new());
                self.shutdown = false;
                self.cols = crate::DEFAULT_COLS as u32;
                self.rows = crate::DEFAULT_ROWS as u32;
                Ok(())
            },
        }
    }

    /// Enqueue one whole input buffer; never blocks the caller.
    ///
    /// Fails with `NotConnected` when no input path exists (before `connect`,
    /// after `disconnect`), and with `QueueClosed` when the pump consuming
    /// the queue has stopped.
    pub fn send_input(&mut self, data: Vec<u8>) -> (r: Result<(), ConnError>)
        requires
            old(self).wf(),
        ensures
            final(self).wf(),
            final(self).id() == old(self).id(),
            final(self).is_connected() == old(self).is_connected(),
            final(self).shutdown_raised() == old(self).shutdown_raised(),
            final(self).geometry() == old(self).geometry(),
            final(self).has_input() == old(self).has_input(),
            !old(self).has_input() ==> ({
                &&& r == Err::<(), ConnError>(ConnError::NotConnected)
                &&& *final(self) == *old(self)
            }),
            old(self).has_input() ==> ({
                let q = old(self).input_queue();
                let qq = final(self).input_queue();
                &&& qq.is_closed() == q.is_closed()
                &&& qq.dequeued() == q.dequeued()
                &&& (q.is_closed() ==> r == Err::<(), ConnError>(ConnError::QueueClosed)
                    && qq.pending() == q.pending() && qq.history() == q.history())
                &&& (!q.is_closed() ==> r == Ok::<(), ConnError>(())
                    && qq.pending() == q.pending().push(data@)
                    && qq.history() == q.history().push(data@))
            }),
    {
        match &mut self.input {
            None => Err(ConnError::NotConnected),
            Some(q) => q.push(data),
        }
    }

    /// Record that the pump consuming the input queue has stopped: the
    /// input path stays present but accepts nothing further, so callers see
    /// `QueueClosed` rather than a silent drop.
    pub fn close_input(&mut self)
        requires
            old(self).wf(),
        ensures
            final(self).wf(),
            final(self).id() == old(self).id(),
            final(self).is_connected() == old(self).is_connected(),
            final(self).shutdown_raised() == old(self).shutdown_raised(),
            final(self).geometry() == old(self).geometry(),
            final(self).has_input() == old(self).has_input(),
            old(self).has_input() ==> ({
                let q = old(self).input_queue();
                let qq = final(self).input_queue();
                &&& qq.is_closed()
                &&& qq.pending() == q.pending()
                &&& qq.history() == q.history()
                &&& qq.dequeued() == q.dequeued()
            }),
            !old(self).has_input() ==> *final(self) == *old(self),
    {
        match &mut self.input {
            Some(q) => q.close(),
            None => (),
        }
    }

    /// Request a new transport geometry; valid only while connected.
    ///
    /// A successful resize changes the reported geometry immediately and
    /// alters nothing else: not the session identity, not the queued input.
    pub fn resize(&mut self, cols: u32, rows: u32) -> (r: Result<(), ConnError>)
        requires
            old(self).wf(),
        ensures
            final(self).wf(),
            final(self).id() == old(self).id(),
            final(self).is_connected() == old(self).is_connected(),
            final(self).shutdown_raised() == old(self).shutdown_raised(),
            final(self).has_input() == old(self).has_input(),
            old(self).has_input() ==> final(self).input_queue() == old(self).input_queue(),
            !old(self).is_connected() ==> ({
                &&& r == Err::<(), ConnError>(ConnError::NotConnected)
                &&& *final(self) == *old(self)
            }),
            old(self).is_connected() ==> ({
                &&& r == Ok::<(), ConnError>(())
                &&& final(self).geometry() == (cols, rows)
            }),
    {
        if !self.connected {
            return Err(ConnError::NotConnected);
        }
        self.cols = cols;
        self.rows = rows;
        Ok(())
    }

    /// Tear the session down; idempotent and infallible.
    ///
    /// Raises the shutdown signal, closes the input producer, releases the
    /// transport, and clears every field; teardown errors are swallowed by
    /// the shell, never surfaced.  Safe on an already-disconnected or
    /// never-connected instance: the result is the same cleared state.
    pub fn disconnect(&mut self) -> (r: Result<(), ConnError>)
        requires
            old(self).wf(),
        ensures
            final(self).wf(),
            final(self).is_cleared(),
            final(self).id() == old(self).id(),
            r == Ok::<(), ConnError>(()),
    {
        self.shutdown = true;
        match &mut self.input {
            Some(q) => q.close(),
            None => (),
        }
        self.connected = false;
        self.input = None;
        self.shutdown = false;
        self.cols = crate::DEFAULT_COLS as u32;
        self.rows = crate::DEFAULT_ROWS as u32;
        Ok(())
    }
}

/// Disconnect is idempotent: any two cleared states of the same session are
/// indistinguishable — every observation of the connection agrees.  Hence a
/// second `disconnect`, or one on a never-connected instance, yields the same
/// cleared state again.
pub proof fn lemma_cleared_state_unique(a: SshConnection, b: SshConnection)
    requires
        a.is_cleared(),
        b.is_cleared(),
        a.id() == b.id(),
    ensures
        a.is_connected() == b.is_connected(),
        a.has_input() == b.has_input(),
        a.shutdown_raised() == b.shutdown_raised(),
        a.geometry() == b.geometry(),
        a.id() == b.id(),
{
}

} // verus!
