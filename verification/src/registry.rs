//! The keyed store of live remote sessions.
//!
//! Command handlers look a session up by its caller-supplied id and apply
//! one lifecycle operation to it.  The store's invariant is the core
//! uniqueness guarantee: at most one live connection exists per session id
//! between connect and disconnect.

use vstd::prelude::*;

use crate::errors::ConnError;
use crate::ssh::{ConnectOutcome, SshConnection};

verus! {

/// Application-wide state: every live remote session, keyed by session id.
pub struct AppState {
    connections: Vec<SshConnection>,
}

impl AppState {
    /// The stored connections, in insertion order.
    pub closed spec fn conns(self) -> Seq<SshConnection> {
        self.connections@
    }

    /// Store invariant: every stored connection is well formed, and no two
    /// share a session id.
    pub open spec fn wf(self) -> bool {
        &&& forall|i: int|
            0 <= i < self.conns().len() ==> (#[trigger] self.conns()[i]).wf()
        &&& forall|i: int, j: int|
            0 <= i < j < self.conns().len() ==> self.conns()[i].id() != self.conns()[j].id()
    }

    /// Whether some stored connection carries this id.
    pub open spec fn has_session(self, id: Seq<char>) -> bool {
        exists|i: int| 0 <= i < self.conns().len() && (#[trigger] self.conns()[i]).id() == id
    }

    /// The stored connection carrying this id; well defined by uniqueness.
    pub open spec fn session(self, id: Seq<char>) -> SshConnection
        recommends
            self.has_session(id),
    {
        self.conns()[choose|i: int|
            0 <= i < self.conns().len() && (#[trigger] self.conns()[i]).id() == id]
    }

    /// An empty store.
    pub fn new() -> (st: AppState)
        ensures
            st.wf(),
            st.conns() == Seq::<SshConnection>::empty(),
    {
        AppState { connections: Vec::new() }
    }

    /// How many sessions are stored.
    pub fn len(&self) -> (n: usize)
        ensures
            n == self.conns().len(),
    {
        self.connections.len()
    }

    /// Index of the connection carrying this id, if any.
    fn find(&self, session_id: &String) -> (r: Option<usize>)
        ensures
            match r {
                None => !self.has_session(session_id@),
                Some(i) => 0 <= i < self.conns().len() && self.conns()[i as int].id() == session_id@,
            },
    {
        let n = self.connections.len();
        let mut i: usize = 0;
        while i < n
            invariant
                n == self.conns().len(),
                i <= n,
                forall|j: int| 0 <= j < i ==> (#[trigger] self.conns()[j]).id() != session_id@,
            decreases n - i,
        {
            if self.connections[i].id_str().eq(session_id) {
                return Some(i);
            }
            i = i + 1;
        }
        None
    }

    /// Whether a live connection exists for this id.
    pub fn has_connection(&self, session_id: &String) -> (b: bool)
        ensures
            b == self.has_session(session_id@),
    {
        match self.find(session_id) {
            Some(_) => true,
            None => false,
        }
    }

    /// Open a new remote session under this id.
    ///
    /// A fresh connection records the reported connect outcome; only a ready
    /// transport is stored.  Storing replaces any previous connection under
    /// the same id, so at most one live connection per id ever exists.  On
    /// failure the store is unchanged and the attempt's error is returned.
    pub fn ssh_connect(&mut self, session_id: String, outcome: ConnectOutcome) -> (r: Result<
        (),
        ConnError,
    >)
        requires
            old(self).wf(),
        ensures
            final(self).wf(),
            outcome is Ready ==> ({
                &&& r == Ok::<(), ConnError>(())
                &&& final(self).has_session(session_id@)
                &&& final(self).session(session_id@).wf()
                &&& final(self).session(session_id@).is_connected()
                &&& !final(self).session(session_id@).shutdown_raised()
                &&& final(self).session(session_id@).input_queue().pending() == Seq::<Seq<u8>>::empty()
                &&& !final(self).session(session_id@).input_queue().is_closed()
            }),
            !(outcome is Ready) ==> ({
                &&& r == match outcome {
                    ConnectOutcome::TcpFailed => Err::<(), ConnError>(ConnError::ConnectError),
                    ConnectOutcome::HandshakeFailed => Err::<(), ConnError>(ConnError::ProtocolError),
                    ConnectOutcome::AuthRejected => Err::<(), ConnError>(ConnError::AuthFailed),
                    ConnectOutcome::ChannelFailed => Err::<(), ConnError>(ConnError::ProtocolError),
                    ConnectOutcome::Ready => Ok::<(), ConnError>(()),
                }
                &&& final(self).conns() == old(self).conns()
            }),
            forall|other: Seq<char>|
                other != session_id@ ==> #[trigger] final(self).has_session(other) == old(
                    self,
                ).has_session(other),
    {
        let mut connection = SshConnection::new(session_id.clone());
        let res = connection.connect(outcome);
        match res {
            Err(e) => Err(e),
            Ok(()) => {
                match self.find(&session_id) {
                    Some(i) => {
                        let _old = self.connections.remove(i);
                        self.connections.insert(i, connection);
                        proof {
                            let cs = self.conns();
                            let os = old(self).conns();
                            assert(cs =~= os.remove(i as int).insert(i as int, connection));
                            assert(forall|j: int| 0 <= j < cs.len() && j != i ==> cs[j] == os[j]);
                            assert(cs[i as int] == connection);
                            assert((*self).has_session(session_id@));
                            lemma_session_is(*self, i as int, session_id@);
                            assert forall|other: Seq<char>| other != session_id@ implies #[trigger] (*self).has_session(other) == old(self).has_session(other) by {
                                if old(self).has_session(other) {
                                    let w = choose|k: int|
                                        0 <= k < os.len() && (#[trigger] os[k]).id() == other;
                                    assert(w != i);
                                    assert(cs[w].id() == other);
                                }
                                if (*self).has_session(other) {
                                    let w = choose|k: int|
                                        0 <= k < cs.len() && (#[trigger] cs[k]).id() == other;
                                    assert(w != i);
                                    assert(os[w].id() == other);
                                }
                            }
                        }
                        Ok(())
                    },
                    None => {
                        self.connections.push(connection);
                        proof {
                            let cs = self.conns();
                            let os = old(self).conns();
                            assert(cs =~= os.push(connection));
                            assert(cs[os.len() as int] == connection);
                            assert((*self).has_session(session_id@));
                            lemma_session_is(*self, os.len() as int, session_id@);
                            assert forall|other: Seq<char>| other != session_id@ implies #[trigger] (*self).has_session(other) == old(self).has_session(other) by {
                                if old(self).has_session(other) {
                                    let w = choose|k: int|
                                        0 <= k < os.len() && (#[trigger] os[k]).id() == other;
                                    assert(cs[w].id() == other);
                                }
                                if (*self).has_session(other) {
                                    let w = choose|k: int|
                                        0 <= k < cs.len() && (#[trigger] cs[k]).id() == other;
                                    assert(w != os.len());
                                    assert(os[w].id() == other);
                                }
                            }
                        }
                        Ok(())
                    },
                }
            },
        }
    }

    /// Enqueue input for the session under this id.  `None` when no such
    /// session exists; otherwise the connection's own `send_input` result.
    pub fn ssh_send_input(&mut self, session_id: &String, data: Vec<u8>) -> (r: Option<
        Result<(), ConnError>,
    >)
        requires
            old(self).wf(),
        ensures
            final(self).wf(),
            r is None <==> !old(self).has_session(session_id@),
            forall|other: Seq<char>|
                #[trigger] final(self).has_session(other) == old(self).has_session(other),
            !old(self).has_session(session_id@) ==> final(self).conns() == old(self).conns(),
            old(self).has_session(session_id@) ==> ({
                let c = old(self).session(session_id@);
                let c2 = final(self).session(session_id@);
                &&& final(self).has_session(session_id@)
                &&& c2.id() == c.id()
                &&& c2.is_connected() == c.is_connected()
                &&& (!c.has_input() ==> r == Some(Err::<(), ConnError>(ConnError::NotConnected))
                    && c2 == c)
                &&& (c.has_input() && c.input_queue().is_closed() ==> r == Some(
                    Err::<(), ConnError>(ConnError::QueueClosed),
                ) && c2.input_queue().pending() == c.input_queue().pending())
                &&& (c.has_input() && !c.input_queue().is_closed() ==> r == Some(
                    Ok::<(), ConnError>(()),
                ) && c2.input_queue().pending() == c.input_queue().pending().push(data@)
                    && c2.input_queue().history() == c.input_queue().history().push(data@))
            }),
    {
        match self.find(session_id) {
            None => None,
            Some(i) => {
                proof {
                    lemma_session_is(*old(self), i as int, session_id@);
                }
                let mut connection = self.connections.remove(i);
                let res = connection.send_input(data);
                self.connections.insert(i, connection);
                proof {
                    lemma_replace_at(*old(self), *self, connection, i as int, session_id@);
                }
                Some(res)
            },
        }
    }

    /// Resize the session under this id.  `None` when no such session
    /// exists; otherwise the connection's own `resize` result.
    pub fn ssh_resize(&mut self, session_id: &String, cols: u32, rows: u32) -> (r: Option<
        Result<(), ConnError>,
    >)
        requires
            old(self).wf(),
        ensures
            final(self).wf(),
            r is None <==> !old(self).has_session(session_id@),
            forall|other: Seq<char>|
                #[trigger] final(self).has_session(other) == old(self).has_session(other),
            !old(self).has_session(session_id@) ==> final(self).conns() == old(self).conns(),
            old(self).has_session(session_id@) ==> ({
                let c = old(self).session(session_id@);
                let c2 = final(self).session(session_id@);
                &&& final(self).has_session(session_id@)
                &&& c2.id() == c.id()
                &&& (!c.is_connected() ==> r == Some(Err::<(), ConnError>(ConnError::NotConnected))
                    && c2 == c)
                &&& (c.is_connected() ==> r == Some(Ok::<(), ConnError>(())) && c2.geometry() == (
                    cols,
                    rows,
                ) && c2.is_connected() && (c.has_input() ==> c2.input_queue()
                    == c.input_queue()))
            }),
    {
        match self.find(session_id) {
            None => None,
            Some(i) => {
                proof {
                    lemma_session_is(*old(self), i as int, session_id@);
                }
                let mut connection = self.connections.remove(i);
                let res = connection.resize(cols, rows);
                self.connections.insert(i, connection);
                proof {
                    lemma_replace_at(*old(self), *self, connection, i as int, session_id@);
                }
                Some(res)
            },
        }
    }

    /// Remove and tear down the session under this id.  `None` when no such
    /// session exists; removal always succeeds and frees the id.
    pub fn ssh_disconnect(&mut self, session_id: &String) -> (r: Option<Result<(), ConnError>>)
        requires
            old(self).wf(),
        ensures
            final(self).wf(),
            r is None <==> !old(self).has_session(session_id@),
            !old(self).has_session(session_id@) ==> final(self).conns() == old(self).conns(),
            old(self).has_session(session_id@) ==> r == Some(Ok::<(), ConnError>(())),
            !final(self).has_session(session_id@),
            forall|other: Seq<char>|
                other != session_id@ ==> #[trigger] final(self).has_session(other) == old(
                    self,
                ).has_session(other),
    {
        match self.find(session_id) {
            None => None,
            Some(i) => {
                let mut connection = self.connections.remove(i);
                let res = connection.disconnect();
                proof {
                    let cs = self.conns();
                    let os = old(self).conns();
                    assert(cs =~= os.remove(i as int));
                    assert(forall|j: int| 0 <= j < i ==> cs[j] == os[j]);
                    assert(forall|j: int| i <= j < cs.len() ==> cs[j] == os[j + 1]);
                    assert forall|other: Seq<char>| !((*self).has_session(other) && other
                        == session_id@) by {
                        if (*self).has_session(session_id@) {
                            let w = choose|k: int|
                                0 <= k < cs.len() && (#[trigger] cs[k]).id() == session_id@;
                            if w < i {
                                assert(os[w].id() == os[i as int].id());
                            } else {
                                assert(os[w + 1].id() == os[i as int].id());
                            }
                        }
                    }
                    assert forall|other: Seq<char>| other != session_id@ implies #[trigger] (*self).has_session(other) == old(self).has_session(other) by {
                        if old(self).has_session(other) {
                            let w = choose|k: int|
                                0 <= k < os.len() && (#[trigger] os[k]).id() == other;
                            assert(w != i);
                            if w < i {
                                assert(cs[w].id() == other);
                            } else {
                                assert(cs[w - 1].id() == other);
                            }
                        }
                        if (*self).has_session(other) {
                            let w = choose|k: int|
                                0 <= k < cs.len() && (#[trigger] cs[k]).id() == other;
                            if w < i {
                                assert(os[w].id() == other);
                            } else {
                                assert(os[w + 1].id() == other);
                            }
                        }
                    }
                }
                Some(res)
            },
        }
    }
}

/// At most one live connection exists per session id: in a well-formed
/// store, two stored connections with the same id are the same entry.
pub proof fn lemma_one_connection_per_id(st: AppState, i: int, j: int)
    requires
        st.wf(),
        0 <= i < st.conns().len(),
        0 <= j < st.conns().len(),
        st.conns()[i].id() == st.conns()[j].id(),
    ensures
        i == j,
{
}

/// In a well-formed store, `session(id)` is exactly the entry at any index
/// whose connection carries that id.
proof fn lemma_session_is(st: AppState, i: int, id: Seq<char>)
    requires
        st.wf(),
        0 <= i < st.conns().len(),
        st.conns()[i].id() == id,
    ensures
        st.has_session(id),
        st.session(id) == st.conns()[i],
{
    let w = choose|k: int| 0 <= k < st.conns().len() && (#[trigger] st.conns()[k]).id() == id;
    lemma_one_connection_per_id(st, w, i);
}

/// Replacing the entry at one index with a connection of the same id
/// preserves the keyed view of every other session.
proof fn lemma_replace_at(
    os_st: AppState,
    ns_st: AppState,
    c: SshConnection,
    i: int,
    id: Seq<char>,
)
    requires
        os_st.wf(),
        0 <= i < os_st.conns().len(),
        os_st.conns()[i].id() == id,
        c.wf(),
        c.id() == id,
        ns_st.conns() == os_st.conns().remove(i).insert(i, c),
    ensures
        ns_st.wf(),
        ns_st.has_session(id),
        ns_st.session(id) == c,
        forall|other: Seq<char>|
            #[trigger] ns_st.has_session(other) == os_st.has_session(other),
        forall|other: Seq<char>|
            other != id && os_st.has_session(other) ==> ns_st.session(other) == os_st.session(
                other,
            ),
{
    let cs = ns_st.conns();
    let os = os_st.conns();
    assert(cs =~= os.update(i, c));
    assert(forall|j: int| 0 <= j < cs.len() && j != i ==> cs[j] == os[j]);
    assert(cs[i] == c);
    assert(ns_st.wf());
    lemma_session_is(ns_st, i, id);
    assert forall|other: Seq<char>| #[trigger] ns_st.has_session(other) == os_st.has_session(
        other,
    ) by {
        if os_st.has_session(other) {
            let w = choose|k: int| 0 <= k < os.len() && (#[trigger] os[k]).id() == other;
            if w == i {
                assert(cs[i].id() == other);
            } else {
                assert(cs[w].id() == other);
            }
        }
        if ns_st.has_session(other) {
            let w = choose|k: int| 0 <= k < cs.len() && (#[trigger] cs[k]).id() == other;
            if w == i {
                assert(os[i].id() == other);
            } else {
                assert(os[w].id() == other);
            }
        }
    }
    assert forall|other: Seq<char>|
        other != id && os_st.has_session(other) implies ns_st.session(other) == os_st.session(
        other,
    ) by {
        let w = choose|k: int| 0 <= k < os.len() && (#[trigger] os[k]).id() == other;
        lemma_session_is(os_st, w, other);
        assert(w != i);
        assert(cs[w].id() == other);
        lemma_session_is(ns_st, w, other);
    }
}

} // verus!
