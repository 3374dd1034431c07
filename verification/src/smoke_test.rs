//! The echo protocol, the smoke test of the collection: every byte received
//! on a connection is written straight back. The worker's socket loop reads
//! into a buffer and reports what happened; the decision of what to do with
//! each outcome is here.

use vstd::prelude::*;

verus! {

/// What one read from the connection produced, as the worker sees it.
pub enum ReadEvent {
    /// These bytes arrived.
    Data(Vec<u8>),
    /// The peer closed the connection (a read of zero bytes).
    Closed,
    /// The read was interrupted; nothing was lost.
    Interrupted,
    /// The read failed for good.
    Failed,
}

/// What the echo worker does next.
pub enum EchoAction {
    /// Write exactly these bytes back.
    Write(Vec<u8>),
    /// The connection is done; finish without error.
    Stop,
    /// Read again.
    Retry,
    /// Finish, reporting the read error.
    Fail,
}

/// One step of the echo loop: data goes back unchanged, end of stream ends
/// the worker cleanly, an interrupted read is retried, and a failed read
/// ends the worker with the error.
pub fn echo_step(event: ReadEvent) -> (a: EchoAction)
    ensures
        event matches ReadEvent::Data(d) ==> (a matches EchoAction::Write(w) && w@ == d@),
        event is Closed ==> a is Stop,
        event is Interrupted ==> a is Retry,
        event is Failed ==> a is Fail,
{
    match event {
        ReadEvent::Data(d) => EchoAction::Write(d),
        ReadEvent::Closed => EchoAction::Stop,
        ReadEvent::Interrupted => EchoAction::Retry,
        ReadEvent::Failed => EchoAction::Fail,
    }
}

} // verus!
