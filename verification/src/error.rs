//! The kinds of failure an invocation can report.

use vstd::prelude::*;

verus! {

/// Why an invocation stopped, or what it had to remark on.
///
/// Every kind but [`ErrorKind::PayloadDecodeWarning`] is fatal: the
/// invocation ends with it and is not retried.
#[derive(Clone, Copy, Debug, PartialEq, Eq, Structural)]
pub enum ErrorKind {
    /// No account was handed to the invocation.
    MissingAccount,
    /// The account's owner is not the calling program.
    UnauthorizedAccount,
    /// The instruction payload does not parse as a record state. The
    /// invocation goes on regardless.
    PayloadDecodeWarning,
    /// The account's buffer does not hold a record state.
    CorruptState,
    /// The counter is at its maximum and cannot be incremented.
    CounterOverflow,
    /// The instruction payload is longer than the account's buffer.
    BufferOverflow,
    /// The record state's encoding is longer than the buffer it is written
    /// to, or its message is too long for the length prefix.
    StateEncodeOverflow,
}

impl ErrorKind {
    /// Every kind ends the invocation, except the warning about the payload.
    pub open spec fn fatal(self) -> bool {
        self != ErrorKind::PayloadDecodeWarning
    }

    /// Tells a hard failure from the recoverable warning.
    pub fn is_fatal(&self) -> (fatal: bool)
        ensures
            fatal == self.fatal(),
    {
        match self {
            ErrorKind::PayloadDecodeWarning => false,
            _ => true,
        }
    }
}

} // verus!
