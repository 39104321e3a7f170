//! The failures that end a protocol run.
use vstd::prelude::*;

verus! {

/// Every failure is terminal: the run that meets one is aborted and no
/// partial result is produced.
#[derive(Clone, Copy, Debug, PartialEq, Eq, Structural)]
pub enum ProtocolError {
    /// Connecting to a rendezvous address did not finish in time.
    ConnectTimeout,
    /// No peer connected to a bound rendezvous address in time.
    AcceptTimeout,
    /// A read did not complete in time.
    ReadTimeout,
    /// A write did not complete in time.
    WriteTimeout,
    /// The peer closed the channel (a read returned zero bytes).
    PeerDisconnected,
    /// A frame held nothing but whitespace.
    EmptyPayload,
    /// A frame, or a party's input, is not a decimal number of the expected kind.
    MalformedNumber,
    /// A private value does not fit in a signed 64-bit integer.
    ValueOverflow,
}

} // verus!
