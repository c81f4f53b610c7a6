//! The ways in which the session layer can fail.

use vstd::prelude::*;

verus! {

/// What went wrong. Each kind has its own consequence for the daemon.
#[derive(Debug, Clone, Copy, PartialEq, Eq, Hash, Structural)]
pub enum SessionError {
    /// Wire data that is truncated or does not match its declared length:
    /// fatal to the connection it came from.
    MalformedFrame,
    /// A socket or file operation failed: fatal to that one operation only.
    IOError,
    /// A message that does not fit the current phase. For now such a
    /// message is handled like any other, and nothing reports this kind.
    ProtocolViolation,
    /// The daemon's own bookkeeping is inconsistent, as when a client that
    /// is not registered is removed: a programming error.
    StateInvariantViolation,
}

/// What the daemon does about an error.
#[derive(Debug, Clone, Copy, PartialEq, Eq, Hash, Structural)]
pub enum Consequence {
    /// The client that the error came from is dropped; the others go on.
    DropClient,
    /// The one operation fails and is logged; the daemon goes on.
    FailOperation,
    /// The message is handled as a message that asks for nothing.
    Ignore,
    /// The daemon stops: its own state cannot be trusted.
    Abort,
}

impl SessionError {
    /// What the daemon does about each kind of error.
    pub open spec fn consequence_of(self) -> Consequence {
        match self {
            SessionError::MalformedFrame => Consequence::DropClient,
            SessionError::IOError => Consequence::FailOperation,
            SessionError::ProtocolViolation => Consequence::Ignore,
            SessionError::StateInvariantViolation => Consequence::Abort,
        }
    }

    /// What the daemon does about this error. No error of one client
    /// reaches another client or stops the event loop, but for a violated
    /// invariant of the daemon's own state.
    pub fn consequence(self) -> (consequence: Consequence)
        ensures
            consequence == self.consequence_of(),
    {
        match self {
            SessionError::MalformedFrame => Consequence::DropClient,
            SessionError::IOError => Consequence::FailOperation,
            SessionError::ProtocolViolation => Consequence::Ignore,
            SessionError::StateInvariantViolation => Consequence::Abort,
        }
    }
}

} // verus!
