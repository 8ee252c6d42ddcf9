//! Output events delivered to the per-session event sink.

use vstd::prelude::*;
use vstd::string::*;

use crate::errors::ConnError;

verus! {

/// One notification for a session, delivered in production order.
#[derive(Debug, Clone, PartialEq)]
pub enum OutputEvent {
    /// Raw bytes the transport produced.
    Data(Vec<u8>),
    /// The transport reached end-of-stream; at most one per session.
    Closed,
    /// A non-transient transport error ended the session.
    Error(String),
}

impl OutputEvent {
    /// The notification reporting this error to the sink.
    pub fn error_event(err: ConnError) -> (e: OutputEvent)
        ensures
            e matches OutputEvent::Error(m) && m@ == err.spec_message(),
    {
        OutputEvent::Error(err.message().to_owned())
    }

    /// The bytes carried by a `Data` event.
    pub open spec fn data_bytes(self) -> Seq<u8>
        recommends
            self is Data,
    {
        self->Data_0@
    }
}

} // verus!
