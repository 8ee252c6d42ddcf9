//! Lifecycle state machine of a locally spawned pseudo-terminal session.
//!
//! The unverified shell allocates the pseudo-terminal, spawns the child
//! process and runs the two I/O loops; its read and write handles are
//! independent, so unlike the remote backend the two loops need no shared
//! critical section.  This module decides what to spawn (shell and working
//! directory fall-backs, terminal environment, initial geometry), how each
//! lifecycle operation transitions the session state, and how the read loop
//! reacts to every read outcome — including the adaptive idle sleep and the
//! close/reap protocol on end-of-stream.

use vstd::prelude::*;

use crate::errors::ConnError;
use crate::events::OutputEvent;
use crate::pump::ReadOutcome;
use crate::queue::InputQueue;

verus! {

/// How far a pseudo-terminal spawn attempt got, as reported by the caller.
/// Every failing stage is synchronous and fatal to the attempt.
#[derive(Clone, Copy, Debug, PartialEq, Eq, Structural)]
pub enum SpawnOutcome {
    /// The pseudo-terminal could not be allocated.
    PtyFailed,
    /// The shell process could not be spawned, or its I/O handles not taken.
    SpawnFailed,
    /// The child process is running and both handles are ready.
    Ready,
}

/// Everything the shell needs in order to spawn the child process: resolved
/// shell path and working directory, the terminal environment, and the
/// initial geometry.
pub struct SpawnPlan {
    /// Shell executable to launch.
    pub shell: String,
    /// Working directory to start it in.
    pub cwd: String,
    /// Value for the TERM variable: a color-capable terminal type.
    pub term: String,
    /// Value for the COLORTERM variable.
    pub colorterm: String,
    /// UTF-8 locale, for both LANG and LC_ALL.
    pub locale: String,
    /// Initial width in columns.
    pub cols: u16,
    /// Initial height in rows.
    pub rows: u16,
}

/// Resolve what to spawn.  An explicit request wins; otherwise the
/// environment-declared value (SHELL, HOME) passed in by the caller;
/// otherwise the built-in fall-back.
pub fn spawn_plan(
    shell: Option<String>,
    cwd: Option<String>,
    env_shell: Option<String>,
    env_home: Option<String>,
) -> (p: SpawnPlan)
    ensures
        p.shell@ == match shell {
            Some(s) => s@,
            None => match env_shell {
                Some(s) => s@,
                None => "/bin/zsh"@,
            },
        },
        p.cwd@ == match cwd {
            Some(s) => s@,
            None => match env_home {
                Some(s) => s@,
                None => "/"@,
            },
        },
        p.term@ == "xterm-256color"@,
        p.colorterm@ == "truecolor"@,
        p.locale@ == "en_US.UTF-8"@,
        p.cols == crate::DEFAULT_COLS,
        p.rows == crate::DEFAULT_ROWS,
{
    let shell_path = match shell {
        Some(s) => s,
        None => match env_shell {
            Some(s) => s,
            None => "/bin/zsh".to_owned(),
        },
    };
    let working_dir = match cwd {
        Some(s) => s,
        None => match env_home {
            Some(s) => s,
            None => "/".to_owned(),
        },
    };
    SpawnPlan {
        shell: shell_path,
        cwd: working_dir,
        term: "xterm-256color".to_owned(),
        colorterm: "truecolor".to_owned(),
        locale: "en_US.UTF-8".to_owned(),
        cols: crate::DEFAULT_COLS,
        rows: crate::DEFAULT_ROWS,
    }
}

/// Per-session wrapper over the local process backend.
///
/// The pseudo-terminal, the child-process handle and the raw I/O handles
/// live with the unverified shell, which keeps them populated exactly while
/// `is_connected()` holds.
pub struct LocalConnection {
    session_id: String,
    connected: bool,
    input: Option<InputQueue>,
    shutdown: bool,
    cols: u16,
    rows: u16,
}

impl LocalConnection {
    /// The caller-supplied session key.
    pub closed spec fn id(self) -> Seq<char> {
        self.session_id@
    }

    /// Whether a transport is populated and the I/O loops may run.
    pub closed spec fn is_connected(self) -> bool {
        self.connected
    }

    /// Whether an input path exists.
    pub closed spec fn has_input(self) -> bool {
        self.input is Some
    }

    /// The input queue, while one exists.
    pub closed spec fn input_queue(self) -> InputQueue
        recommends
            self.has_input(),
    {
        self.input->Some_0
    }

    /// Whether the shutdown signal has been raised.
    pub closed spec fn shutdown_raised(self) -> bool {
        self.shutdown
    }

    /// The geometry last requested of the pseudo-terminal, columns then rows.
    pub closed spec fn geometry(self) -> (u16, u16) {
        (self.cols, self.rows)
    }

    /// Fully empty: no transport, no input path, no raised signal, default
    /// geometry.  A connection is in this state before `spawn` and again
    /// after `disconnect`.
    pub open spec fn is_cleared(self) -> bool {
        &&& !self.is_connected()
        &&& !self.has_input()
        &&& !self.shutdown_raised()
        &&& self.geometry() == (crate::DEFAULT_COLS, crate::DEFAULT_ROWS)
    }

    /// Structural invariant, shared with the remote backend: the input path
    /// exists exactly while connected, and a disconnected instance is fully
    /// empty.
    pub open spec fn wf(self) -> bool {
        &&& self.is_connected() <==> self.has_input()
        &&& !self.is_connected() ==> self.is_cleared()
        &&& self.has_input() ==> self.input_queue().wf()
    }

    /// Whether a transport is currently populated.
    pub fn connected(&self) -> (b: bool)
        ensures
            b == self.is_connected(),
    {
        self.connected
    }

    /// The geometry last requested of the pseudo-terminal.
    pub fn current_geometry(&self) -> (g: (u16, u16))
        ensures
            g == self.geometry(),
    {
        (self.cols, self.rows)
    }

    /// A new, never-connected instance for this session id.
    pub fn new(session_id: String) -> (c: LocalConnection)
        ensures
            c.wf(),
            c.is_cleared(),
            c.id() == session_id@,
    {
        LocalConnection {
            session_id,
            connected: false,
            input: None,
            shutdown: false,
            cols: crate::DEFAULT_COLS,
            rows: crate::DEFAULT_ROWS,
        }
    }

    /// Record the outcome of one spawn attempt.
    ///
    /// An attempt on an already-connected instance is rejected with
    /// `SpawnError` and changes nothing.  Any spawn failure is `SpawnError`
    /// and leaves the connection fully empty.  A running child moves the
    /// connection to the operational state with a fresh open input queue and
    /// the default initial geometry.
    pub fn spawn(&mut self, outcome: SpawnOutcome) -> (r: Result<(), ConnError>)
        requires
            old(self).wf(),
        ensures
            final(self).wf(),
            final(self).id() == old(self).id(),
            old(self).is_connected() ==> ({
                &&& r == Err::<(), ConnError>(ConnError::SpawnError)
                &&& *final(self) == *old(self)
            }),
            !old(self).is_connected() ==> match outcome {
                SpawnOutcome::PtyFailed => r == Err::<(), ConnError>(ConnError::SpawnError)
                    && final(self).is_cleared(),
                SpawnOutcome::SpawnFailed => r == Err::<(), ConnError>(ConnError::SpawnError)
                    && final(self).is_cleared(),
                SpawnOutcome::Ready => ({
                    &&& r == Ok::<(), ConnError>(())
                    &&& final(self).is_connected()
                    &&& final(self).has_input()
                    &&& !final(self).input_queue().is_closed()
                    &&& final(self).input_queue().pending() == Seq::<Seq<u8>>::empty()
                    &&& final(self).input_queue().history() == Seq::<Seq<u8>>::empty()
                    &&& final(self).input_queue().dequeued() == 0
                    &&& !final(self).shutdown_raised()
                    &&& final(self).geometry() == (crate::DEFAULT_COLS, crate::DEFAULT_ROWS)
                }),
            },
    {
        if self.connected {
            return Err(ConnError::SpawnError);
        }
        match outcome {
            SpawnOutcome::PtyFailed => Err(ConnError::SpawnError),
            SpawnOutcome::SpawnFailed => Err(ConnError::SpawnError),
            SpawnOutcome::Ready => {
                self.connected = true;
                self.input = Some(InputQueue::new());
                self.shutdown = false;
                self.cols = crate::DEFAULT_COLS;
                self.rows = crate::DEFAULT_ROWS;
                Ok(())
            },
        }
    }

    /// Enqueue one whole input buffer; never blocks the caller.  Same
    /// contract as the remote backend: `NotConnected` without an input path,
    /// `QueueClosed` once the writer loop has stopped.
    pub fn send_input(&mut self, data: Vec<u8>) -> (r: Result<(), ConnError>)
        requires
            old(self).wf(),
        ensures
            final(self).wf(),
            final(self).id() == old(self).id(),
            final(self).is_connected() == old(self).is_connected(),
            final(self).shutdown_raised() == old(self).shutdown_raised(),
            final(self).geometry() == old(self).geometry(),
            final(self).has_input() == old(self).has_input(),
            !old(self).has_input() ==> ({
                &&& r == Err::<(), ConnError>(ConnError::NotConnected)
                &&& *final(self) == *old(self)
            }),
            old(self).has_input() ==> ({
                let q = old(self).input_queue();
                let qq = final(self).input_queue();
                &&& qq.is_closed() == q.is_closed()
                &&& qq.dequeued() == q.dequeued()
                &&& (q.is_closed() ==> r == Err::<(), ConnError>(ConnError::QueueClosed)
                    && qq.pending() == q.pending() && qq.history() == q.history())
                &&& (!q.is_closed() ==> r == Ok::<(), ConnError>(())
                    && qq.pending() == q.pending().push(data@)
                    && qq.history() == q.history().push(data@))
            }),
    {
        match &mut self.input {
            None => Err(ConnError::NotConnected),
            Some(q) => q.push(data),
        }
    }

    /// Record that the pump consuming the input queue has stopped: the
    /// input path stays present but accepts nothing further, so callers see
    /// `QueueClosed` rather than a silent drop.
    pub fn close_input(&mut self)
        requires
            old(self).wf(),
        ensures
            final(self).wf(),
            final(self).id() == old(self).id(),
            final(self).is_connected() == old(self).is_connected(),
            final(self).shutdown_raised() == old(self).shutdown_raised(),
            final(self).geometry() == old(self).geometry(),
            final(self).has_input() == old(self).has_input(),
            old(self).has_input() ==> ({
                let q = old(self).input_queue();
                let qq = final(self).input_queue();
                &&& qq.is_closed()
                &&& qq.pending() == q.pending()
                &&& qq.history() == q.history()
                &&& qq.dequeued() == q.dequeued()
            }),
            !old(self).has_input() ==> *final(self) == *old(self),
    {
        match &mut self.input {
            Some(q) => q.close(),
            None => (),
        }
    }

    /// Request a new pseudo-terminal geometry; valid only while connected.
    /// Geometry is carried in 16-bit window-size units, so wider requests are
    /// truncated exactly as the transport would truncate them.
    pub fn resize(&mut self, cols: u32, rows: u32) -> (r: Result<(), ConnError>)
        requires
            old(self).wf(),
        ensures
            final(self).wf(),
            final(self).id() == old(self).id(),
            final(self).is_connected() == old(self).is_connected(),
            final(self).shutdown_raised() == old(self).shutdown_raised(),
            final(self).has_input() == old(self).has_input(),
            old(self).has_input() ==> final(self).input_queue() == old(self).input_queue(),
            !old(self).is_connected() ==> ({
                &&& r == Err::<(), ConnError>(ConnError::NotConnected)
                &&& *final(self) == *old(self)
            }),
            old(self).is_connected() ==> ({
                &&& r == Ok::<(), ConnError>(())
                &&& final(self).geometry() == (cols as u16, rows as u16)
            }),
    {
        if !self.connected {
            return Err(ConnError::NotConnected);
        }
        #[verifier::truncate]
        let c = cols as u16;
        #[verifier::truncate]
        let r = rows as u16;
        self.cols = c;
        self.rows = r;
        Ok(())
    }

    /// Tear the session down; idempotent and infallible.  Raises the
    /// shutdown signal, closes the input producer, kills the child
    /// best-effort, and clears every field.
    pub fn disconnect(&mut self) -> (r: Result<(), ConnError>)
        requires
            old(self).wf(),
        ensures
            final(self).wf(),
            final(self).is_cleared(),
            final(self).id() == old(self).id(),
            r == Ok::<(), ConnError>(()),
    {
        self.shutdown = true;
        match &mut self.input {
            Some(q) => q.close(),
            None => (),
        }
        self.connected = false;
        self.input = None;
        self.shutdown = false;
        self.cols = crate::DEFAULT_COLS;
        self.rows = crate::DEFAULT_ROWS;
        Ok(())
    }
}

/// Disconnect is idempotent for the local backend as well: any two cleared
/// states of the same session are indistinguishable — every observation of
/// the connection agrees.  A second `disconnect`, or one on a never-spawned
/// instance, yields the same cleared state again.
pub proof fn lemma_cleared_local_state_unique(a: LocalConnection, b: LocalConnection)
    requires
        a.is_cleared(),
        b.is_cleared(),
        a.id() == b.id(),
    ensures
        a.is_connected() == b.is_connected(),
        a.has_input() == b.has_input(),
        a.shutdown_raised() == b.shutdown_raised(),
        a.geometry() == b.geometry(),
        a.id() == b.id(),
{
}

/// The adaptive idle sleep of the local read loop, in microseconds: fast
/// polling while recently active, backing off to low-single-digit
/// milliseconds after sustained idleness.
pub open spec fn spec_sleep_micros(idle: u32) -> u64 {
    if idle < 10 {
        100
    } else if idle < 100 {
        1000
    } else {
        5000
    }
}

/// Executable form of the adaptive sleep schedule.
pub fn sleep_micros(idle: u32) -> (d: u64)
    ensures
        d == spec_sleep_micros(idle),
{
    if idle < 10 {
        100
    } else if idle < 100 {
        1000
    } else {
        5000
    }
}

/// Control state of the local read loop: the idle counter driving the
/// adaptive sleep, whether the loop has ended, and whether the one Closed
/// notification and the one child-reap attempt have happened.
pub struct ReaderState {
    /// Consecutive would-block reads since the last data.
    pub idle: u32,
    /// Whether the loop has terminated.
    pub done: bool,
    /// Whether the Closed event has been produced.
    pub emitted_closed: bool,
    /// Whether the child has been reaped.
    pub reaped: bool,
}

impl ReaderState {
    /// Consecutive would-block reads since the last data.
    pub open spec fn idle_count(self) -> u32 {
        self.idle
    }

    /// Whether the read loop has terminated.
    pub open spec fn is_done(self) -> bool {
        self.done
    }

    /// Whether the Closed event has been produced.
    pub open spec fn closed_emitted(self) -> bool {
        self.emitted_closed
    }

    /// Whether the child process has been reaped (best-effort kill on loop
    /// exit).
    pub open spec fn reap_attempted(self) -> bool {
        self.reaped
    }

    /// Closing and reaping happen only at loop exit.
    pub open spec fn wf(self) -> bool {
        &&& self.closed_emitted() ==> self.is_done()
        &&& self.reap_attempted() ==> self.is_done()
    }

    /// The loop as it starts: active, nothing emitted, child running.
    pub fn new() -> (s: ReaderState)
        ensures
            s.wf(),
            !s.is_done(),
            !s.closed_emitted(),
            !s.reap_attempted(),
            s.idle_count() == 0,
    {
        ReaderState { idle: 0, done: false, emitted_closed: false, reaped: false }
    }

    /// Whether the loop must exit.
    pub fn should_stop(&self) -> (b: bool)
        ensures
            b == self.is_done(),
    {
        self.done
    }

    /// Observe the shutdown signal once per iteration; a raised signal ends
    /// the loop and reaps the child, with no event.
    pub fn observe_shutdown(&mut self, signal: bool)
        requires
            old(self).wf(),
        ensures
            final(self).wf(),
            final(self).closed_emitted() == old(self).closed_emitted(),
            final(self).idle_count() == old(self).idle_count(),
            signal ==> final(self).is_done() && final(self).reap_attempted(),
            !signal ==> *final(self) == *old(self),
    {
        if signal {
            self.done = true;
            self.reaped = true;
        }
    }

    /// React to one read outcome: the event to deliver, and how long to
    /// sleep (in microseconds) before the next attempt.
    ///
    /// End-of-stream produces the one Closed event, ends the loop and reaps
    /// the child; data resets the idle counter; a would-block bumps it and
    /// sleeps adaptively; a read error reports once, ends the loop and reaps
    /// the child.
    pub fn step(&mut self, outcome: ReadOutcome) -> (r: (Option<OutputEvent>, u64))
        requires
            old(self).wf(),
            !old(self).is_done(),
        ensures
            final(self).wf(),
            final(self).closed_emitted() == (old(self).closed_emitted() || outcome is Eof),
            match outcome {
                ReadOutcome::Eof => ({
                    &&& r.0 == Some(OutputEvent::Closed)
                    &&& r.1 == 0
                    &&& final(self).is_done()
                    &&& final(self).reap_attempted()
                }),
                ReadOutcome::Data(d) => ({
                    &&& r.0 == Some(OutputEvent::Data(d))
                    &&& r.1 == 0
                    &&& !final(self).is_done()
                    &&& !final(self).reap_attempted()
                    &&& final(self).idle_count() == 0
                }),
                ReadOutcome::WouldBlock => ({
                    &&& r.0 is None
                    &&& !final(self).is_done()
                    &&& !final(self).reap_attempted()
                    &&& final(self).idle_count() == (
                        if old(self).idle_count() == u32::MAX { u32::MAX as int } else { old(self).idle_count() + 1 }
                    )
                    &&& r.1 == spec_sleep_micros(final(self).idle_count())
                }),
                ReadOutcome::Failed => ({
                    &&& (r.0 matches Some(e)
                        && (e matches OutputEvent::Error(m) && m@ == ConnError::IoError.spec_message()))
                    &&& r.1 == 0
                    &&& final(self).is_done()
                    &&& final(self).reap_attempted()
                }),
            },
    {
        match outcome {
            ReadOutcome::Eof => {
                self.done = true;
                self.emitted_closed = true;
                self.reaped = true;
                (Some(OutputEvent::Closed), 0)
            },
            ReadOutcome::Data(d) => {
                self.idle = 0;
                (Some(OutputEvent::Data(d)), 0)
            },
            ReadOutcome::WouldBlock => {
                if self.idle < u32::MAX {
                    self.idle = self.idle + 1;
                }
                (None, sleep_micros(self.idle))
            },
            ReadOutcome::Failed => {
                self.done = true;
                self.reaped = true;
                (Some(OutputEvent::error_event(ConnError::IoError)), 0)
            },
        }
    }
}

/// One read-loop step at the specification level: the successor state,
/// whether a Closed event is emitted, and whether this step ends the loop
/// (the loop reaps the child exactly when it ends).
pub open spec fn reader_step_spec(s: ReaderState, outcome: ReadOutcome) -> (ReaderState, bool, bool)
    recommends
        !s.is_done(),
{
    match outcome {
        ReadOutcome::Eof => (
            ReaderState { idle: s.idle, done: true, emitted_closed: true, reaped: true },
            true,
            true,
        ),
        ReadOutcome::Data(_) => (
            ReaderState { idle: 0, done: s.done, emitted_closed: s.emitted_closed, reaped: s.reaped },
            false,
            false,
        ),
        ReadOutcome::WouldBlock => (
            ReaderState {
                idle: if s.idle == u32::MAX { u32::MAX } else { (s.idle + 1) as u32 },
                done: s.done,
                emitted_closed: s.emitted_closed,
                reaped: s.reaped,
            },
            false,
            false,
        ),
        ReadOutcome::Failed => (
            ReaderState { idle: s.idle, done: true, emitted_closed: s.emitted_closed, reaped: true },
            false,
            true,
        ),
    }
}

/// A whole run of the read loop over a sequence of read outcomes, stopping
/// as soon as the loop ends: the final state, the number of Closed events
/// emitted, and the number of reap attempts made.
pub open spec fn reader_run(s: ReaderState, outs: Seq<ReadOutcome>) -> (ReaderState, nat, nat)
    decreases outs.len(),
{
    if outs.len() == 0 || s.is_done() {
        (s, 0, 0)
    } else {
        let (s1, closed, reap) = reader_step_spec(s, outs.first());
        let (sf, c, r) = reader_run(s1, outs.drop_first());
        (sf, c + (if closed { 1nat } else { 0nat }), r + (if reap { 1nat } else { 0nat }))
    }
}

/// End-of-stream law of the local read loop: however the transport behaves,
/// a run started from a fresh reader emits at most one Closed event and
/// makes at most one reap attempt; it emits a Closed exactly when it ends by
/// end-of-stream, and whenever the loop ends, the child has been reaped
/// exactly once.
pub proof fn lemma_reader_eof_once(s: ReaderState, outs: Seq<ReadOutcome>)
    requires
        s.wf(),
        !s.is_done(),
        !s.closed_emitted(),
        !s.reap_attempted(),
    ensures
        ({
            let (sf, closed, reaps) = reader_run(s, outs);
            &&& closed <= 1
            &&& reaps <= 1
            &&& closed == (if sf.closed_emitted() { 1nat } else { 0nat })
            &&& reaps == (if sf.is_done() { 1nat } else { 0nat })
            &&& sf.closed_emitted() ==> sf.is_done() && sf.reap_attempted()
        }),
    decreases outs.len(),
{
    if outs.len() == 0 || s.is_done() {
    } else {
        let (s1, closed, reap) = reader_step_spec(s, outs.first());
        if s1.is_done() {
            assert(reader_run(s1, outs.drop_first()) == (s1, 0nat, 0nat));
        } else {
            lemma_reader_eof_once(s1, outs.drop_first());
        }
    }
}

} // verus!
