//! Error taxonomy surfaced by session operations.

use vstd::prelude::*;

verus! {

/// Every failure a session operation can report.
///
/// Resource-acquisition failures (`SpawnError`, `ConnectError`, `AuthFailed`,
/// `ProtocolError`) are synchronous and fatal to the connect attempt.
/// `NotConnected` is returned by operations that need a live transport when
/// none exists; `QueueClosed` when the input path exists but its consumer has
/// stopped; `IoError` for terminal I/O failures on a running session.
#[derive(Clone, Copy, Debug, PartialEq, Eq, Structural)]
pub enum ConnError {
    NotConnected,
    SpawnError,
    ConnectError,
    AuthFailed,
    ProtocolError,
    IoError,
    QueueClosed,
}

impl ConnError {
    /// The short description each error carries.
    pub open spec fn spec_message(self) -> Seq<char> {
        match self {
            ConnError::NotConnected => "not connected"@,
            ConnError::SpawnError => "failed to spawn shell"@,
            ConnError::ConnectError => "connection failed"@,
            ConnError::AuthFailed => "Authentication failed"@,
            ConnError::ProtocolError => "protocol error"@,
            ConnError::IoError => "I/O error"@,
            ConnError::QueueClosed => "input queue closed"@,
        }
    }

    /// Short human-readable description of the error.
    pub fn message(&self) -> (m: &'static str)
        ensures
            m@ == self.spec_message(),
    {
        match self {
            ConnError::NotConnected => "not connected",
            ConnError::SpawnError => "failed to spawn shell",
            ConnError::ConnectError => "connection failed",
            ConnError::AuthFailed => "Authentication failed",
            ConnError::ProtocolError => "protocol error",
            ConnError::IoError => "I/O error",
            ConnError::QueueClosed => "input queue closed",
        }
    }
}

} // verus!
