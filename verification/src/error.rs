//! Error kinds of a relayed session and the reasons for which one ends.

use vstd::prelude::*;

verus! {

/// What can go wrong in one session. Every error ends that session and no
/// other.
#[derive(Clone, Copy, Debug, PartialEq, Eq, Structural)]
pub enum SessionError {
    /// No port of the configured range could be bound.
    PortExhausted,
    /// The local UDP socket could not be connected to the remote target.
    BindFailure,
    /// A blocking call ran into the configured timeout.
    TimeoutExpired,
    /// Any other failure of a read or a write.
    TransportError,
}

/// Why a session is closed.
#[derive(Clone, Copy, Debug, PartialEq, Eq, Structural)]
pub enum CloseReason {
    /// The session never got a connected UDP socket.
    BindFailure,
    /// The TCP peer closed its side: a read returned no bytes and no error.
    EndOfStream,
    /// A blocking call ran into the configured timeout.
    TimeoutExpired,
    /// A read or a write failed for another reason.
    TransportError,
}

impl SessionError {
    /// The reason with which a session closes on this error: both errors
    /// of the binding phase close it with `BindFailure`.
    pub open spec fn reason(self) -> CloseReason {
        match self {
            SessionError::PortExhausted => CloseReason::BindFailure,
            SessionError::BindFailure => CloseReason::BindFailure,
            SessionError::TimeoutExpired => CloseReason::TimeoutExpired,
            SessionError::TransportError => CloseReason::TransportError,
        }
    }

    /// Computes [`SessionError::reason`].
    pub fn close_reason(self) -> (r: CloseReason)
        ensures
            r == self.reason(),
    {
        match self {
            SessionError::PortExhausted => CloseReason::BindFailure,
            SessionError::BindFailure => CloseReason::BindFailure,
            SessionError::TimeoutExpired => CloseReason::TimeoutExpired,
            SessionError::TransportError => CloseReason::TransportError,
        }
    }
}

} // verus!
